use lair_config::LairError;
use lair_config::LairServerConfigInner;
use lair_config::LairServerSignatureFallback;
use lair_config::SecureSecretCell;

fn cell(text: &[u8]) -> SecureSecretCell {
    SecureSecretCell::from_vec(text.to_vec()).unwrap()
}

fn fresh_config() -> LairServerConfigInner {
    let td = tempdir::TempDir::new("doc").unwrap();
    let root = td.path().to_str().unwrap().as_bytes().to_vec();
    LairServerConfigInner::new(&root, cell(b"passphrase"), 1, 8192).unwrap()
}

#[test]
fn document_round_trips_with_default_fallback() {
    let c = fresh_config();
    let text = c.to_bytes();
    let back = LairServerConfigInner::from_bytes(&text).unwrap();
    assert_eq!(c, back);
}

#[test]
fn document_round_trips_with_command_fallback() {
    let mut c = fresh_config();
    c.signature_fallback = LairServerSignatureFallback::Command {
        program: b"./my-executable".to_vec(),
        args: Some(vec![b"test-arg1".to_vec(), b"test-arg2".to_vec()]),
    };
    let text = c.to_bytes();
    let back = LairServerConfigInner::from_bytes(&text).unwrap();
    assert_eq!(c, back);

    // and with no argument list at all
    c.signature_fallback = LairServerSignatureFallback::Command {
        program: b"/bin/signer".to_vec(),
        args: None,
    };
    let text2 = c.to_bytes();
    let back2 = LairServerConfigInner::from_bytes(&text2).unwrap();
    assert_eq!(c, back2);

    // and with an empty argument list, distinct from the null form
    c.signature_fallback = LairServerSignatureFallback::Command {
        program: b"/bin/signer".to_vec(),
        args: Some(Vec::new()),
    };
    let text3 = c.to_bytes();
    let back3 = LairServerConfigInner::from_bytes(&text3).unwrap();
    assert_eq!(c, back3);
}

#[test]
fn document_fields_render_as_expected() {
    let c = fresh_config();
    let text = String::from_utf8(c.to_bytes()).unwrap();
    assert!(text.contains("\nconnectionUrl: unix://"));
    assert!(text.contains("\npidFile: "));
    assert!(text.contains("\nstoreFile: "));
    assert!(text.contains("\nsignatureFallback: none\n"));
    assert!(text.contains("\ndatabaseSalt: "));
    assert!(text.contains("\nruntimeSecretsSalt: "));
    assert!(text.contains("\nruntimeSecretsMemLimit: 8192\n"));
    assert!(text.contains("\nruntimeSecretsOpsLimit: 1\n"));
    assert!(text.contains("\nruntimeSecretsContextKey: "));
    assert!(text.contains("\nruntimeSecretsIdSeed: "));
    // the explanatory banners are present and are comments
    assert!(text.contains("\n# The connection url for communications between server / client.\n"));
    assert!(text.contains("\n# -- cryptographic secrets --\n"));
}

#[test]
fn command_fallback_renders_nested_mapping() {
    let mut c = fresh_config();
    c.signature_fallback = LairServerSignatureFallback::Command {
        program: b"./my-executable".to_vec(),
        args: Some(vec![b"test-arg1".to_vec(), b"test-arg2".to_vec()]),
    };
    let text = String::from_utf8(c.to_bytes()).unwrap();
    assert!(text.contains("\nsignatureFallback: !command\n"));
    assert!(text.contains("\n  program: ./my-executable\n"));
    assert!(text.contains("\n  args:\n"));
    assert!(text.contains("\n  - test-arg1\n"));
    assert!(text.contains("\n  - test-arg2\n"));
}

#[test]
fn garbage_is_a_serialization_error() {
    assert_eq!(
        LairServerConfigInner::from_bytes(b"not a config").unwrap_err(),
        LairError::Serialization
    );
    assert_eq!(
        LairServerConfigInner::from_bytes(b"").unwrap_err(),
        LairError::Serialization
    );
    // a document with a truncated tail is rejected
    let c = fresh_config();
    let mut text = c.to_bytes();
    let cut = text.len() - 30;
    text.truncate(cut);
    assert_eq!(
        LairServerConfigInner::from_bytes(&text).unwrap_err(),
        LairError::Serialization
    );
}

#[test]
fn parsing_ignores_extra_comments_and_blank_lines() {
    let c = fresh_config();
    let text = String::from_utf8(c.to_bytes()).unwrap();
    let edited = format!("# extra banner\n\n{}\n# trailing note\n", text);
    let back = LairServerConfigInner::from_bytes(edited.as_bytes()).unwrap();
    assert_eq!(c, back);
}

#[test]
fn equal_records_render_identical_text() {
    let c = fresh_config();
    let copy = LairServerConfigInner::from_bytes(&c.to_bytes()).unwrap();
    assert_eq!(c, copy);
    assert_eq!(c.to_bytes(), copy.to_bytes());
    assert_eq!(c.to_bytes(), c.to_bytes());
}
