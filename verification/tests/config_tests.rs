use lair_config::LairError;
use lair_config::LairServerConfigInner;
use lair_config::LairServerSignatureFallback;
use lair_config::PwHashLimits;
use lair_config::SecureSecretCell;
use lair_config::config::derive_sub_keys;
use lair_config::config::identity_pub_key_from_seed;

fn cell(text: &[u8]) -> SecureSecretCell {
    SecureSecretCell::from_vec(text.to_vec()).unwrap()
}

fn root_of(td: &tempdir::TempDir) -> Vec<u8> {
    td.path().to_str().unwrap().as_bytes().to_vec()
}

#[test]
fn test_config_yaml() {
    let tempdir = tempdir::TempDir::new("example").unwrap();
    let root = root_of(&tempdir);
    let passphrase = cell(b"passphrase");
    let limits = PwHashLimits::Minimum;
    let mut srv = LairServerConfigInner::new(
        &root,
        passphrase,
        limits.as_ops_limit(),
        limits.as_mem_limit(),
    )
    .unwrap();

    println!("-- server config start --");
    println!("{}", String::from_utf8(srv.to_bytes()).unwrap());
    println!("-- server config end --");

    let expected_pid = [root.clone(), b"/pid_file".to_vec()].concat();
    assert_eq!(expected_pid, srv.pid_file);

    srv.signature_fallback = LairServerSignatureFallback::Command {
        program: b"./my-executable".to_vec(),
        args: Some(vec![b"test-arg1".to_vec(), b"test-arg2".to_vec()]),
    };

    println!("-- server config start --");
    println!("{}", String::from_utf8(srv.to_bytes()).unwrap());
    println!("-- server config end --");
}

#[test]
fn distinct_passphrases_distinct_ciphertexts_and_cross_decrypt_fails() {
    let td = tempdir::TempDir::new("p").unwrap();
    let root = root_of(&td);
    let c1 = LairServerConfigInner::new(&root, cell(b"correct horse"), 1, 8192).unwrap();
    let c2 = LairServerConfigInner::new(&root, cell(b"battery staple"), 1, 8192).unwrap();

    assert_ne!(c1.runtime_secrets_context_key, c2.runtime_secrets_context_key);
    assert_ne!(c1.runtime_secrets_id_seed, c2.runtime_secrets_id_seed);

    // sub-keys derived from the first passphrase (under the second record's
    // own salt and cost parameters) must not open the second record
    let (mut ctx1, mut id1) =
        derive_sub_keys(cell(b"correct horse"), &c2.runtime_secrets_salt, 1, 8192).unwrap();
    assert!(c2.runtime_secrets_context_key.decrypt(&mut ctx1).is_err());
    assert!(c2.runtime_secrets_id_seed.decrypt(&mut id1).is_err());
}

#[test]
fn decrypted_seed_reproduces_embedded_pub_key() {
    let td = tempdir::TempDir::new("p").unwrap();
    let root = root_of(&td);
    let c = LairServerConfigInner::new(&root, cell(b"correct horse"), 1, 8192).unwrap();

    let (mut ctx_key, mut id_key) =
        derive_sub_keys(cell(b"correct horse"), &c.runtime_secrets_salt, 1, 8192).unwrap();
    let mut seed = c.runtime_secrets_id_seed.decrypt(&mut id_key).unwrap();
    let pk = identity_pub_key_from_seed(&mut seed).unwrap();
    assert_eq!(pk, c.get_server_pub_key().unwrap());

    // the other sub-key opens the other secret
    assert!(c.runtime_secrets_context_key.decrypt(&mut ctx_key).is_ok());
}

#[test]
fn end_to_end_paths_scheme_and_key() {
    let td = tempdir::TempDir::new("x").unwrap();
    let root = root_of(&td);
    let c = LairServerConfigInner::new(&root, cell(b"correct horse"), 1, 8192).unwrap();

    assert_eq!(c.pid_file, [root.clone(), b"/pid_file".to_vec()].concat());
    assert_eq!(c.store_file, [root.clone(), b"/store_file".to_vec()].concat());
    assert_eq!(c.get_connection_scheme(), "unix");

    let path = c.get_connection_path().unwrap();
    assert!(path.ends_with(b"/socket"));
    assert!(path.starts_with(b"/"));

    let pk = c.get_server_pub_key().unwrap();
    assert_eq!(pk.as_slice().len(), 32);

    assert_eq!(c.runtime_secrets_ops_limit, 1);
    assert_eq!(c.runtime_secrets_mem_limit, 8192);
    assert!(matches!(
        c.signature_fallback,
        LairServerSignatureFallback::NoFallback
    ));
}

#[test]
fn construction_fails_for_missing_root_directory() {
    let r = LairServerConfigInner::new(
        b"/definitely/not/an/existing/dir/xyzzy",
        cell(b"pw"),
        1,
        8192,
    );
    assert_eq!(r.unwrap_err(), LairError::Filesystem);
}

#[test]
fn construction_fails_for_bad_cost_parameters() {
    let td = tempdir::TempDir::new("p").unwrap();
    let root = root_of(&td);
    // ops limit zero is below the argon2id minimum
    let r = LairServerConfigInner::new(&root, cell(b"pw"), 0, 8192);
    assert_eq!(r.unwrap_err(), LairError::Derivation);
}

#[test]
fn pw_hash_limit_tiers() {
    assert_eq!(PwHashLimits::Minimum.as_ops_limit(), 1);
    assert_eq!(PwHashLimits::Minimum.as_mem_limit(), 8192);
    assert_eq!(PwHashLimits::Interactive.as_ops_limit(), 2);
    assert_eq!(PwHashLimits::Interactive.as_mem_limit(), 67108864);
    assert_eq!(PwHashLimits::Moderate.as_ops_limit(), 3);
    assert_eq!(PwHashLimits::Moderate.as_mem_limit(), 268435456);
    assert_eq!(PwHashLimits::Sensitive.as_ops_limit(), 4);
    assert_eq!(PwHashLimits::Sensitive.as_mem_limit(), 1073741824);
}

#[test]
fn construction_rejects_root_with_line_separator() {
    let r = LairServerConfigInner::new(b"/tmp/bad\npath", cell(b"pw"), 1, 8192);
    assert_eq!(r.unwrap_err(), LairError::Filesystem);
}
