use base64::engine::general_purpose::STANDARD as B64;
use base64::Engine;
use k8sdesk::error::AppError;
use k8sdesk::store::{
    decrypt_envelope, encrypt_envelope, master_key_from_text, master_key_text, new_master_key, validate, Auth, ClusterRecord, EncryptedStore, Environment,
    RedactedCluster, next_key_step, store_opening, KeyAction, KeyRead, KeyStep, StoreOpening,
};
use serde_json::Value;

fn sample(env: Environment) -> ClusterRecord {
    ClusterRecord {
        id: uuid::Uuid::new_v4().as_u128(),
        name: "test".into(),
        environment: env,
        api_server: "https://example.test:6443".into(),
        ca_pem: "-----BEGIN CERTIFICATE-----\nabc\n-----END CERTIFICATE-----\n".into(),
        auth: Auth::BearerToken { token: "tkn".into() },
        default_namespace: "default".into(),
        insecure_skip_tls_verify: false,
    }
}

fn environment_text(e: Environment) -> &'static str {
    match e {
        Environment::Dev => "dev",
        Environment::Staging => "staging",
        Environment::Prod => "prod",
    }
}

fn record_json(r: &ClusterRecord) -> Value {
    let mut auth = serde_json::Map::new();
    match &r.auth {
        Auth::BearerToken { token } => {
            auth.insert("kind".into(), Value::String("bearer_token".into()));
            auth.insert("token".into(), Value::String(token.clone()));
        }
        Auth::ClientCert { cert_pem, key_pem } => {
            auth.insert("kind".into(), Value::String("client_cert".into()));
            auth.insert("cert_pem".into(), Value::String(cert_pem.clone()));
            auth.insert("key_pem".into(), Value::String(key_pem.clone()));
        }
    }
    let mut m = serde_json::Map::new();
    m.insert("id".into(), Value::String(uuid::Uuid::from_u128(r.id).to_string()));
    m.insert("name".into(), Value::String(r.name.clone()));
    m.insert("environment".into(), Value::String(environment_text(r.environment).into()));
    m.insert("api_server".into(), Value::String(r.api_server.clone()));
    m.insert("ca_pem".into(), Value::String(r.ca_pem.clone()));
    m.insert("auth".into(), Value::Object(auth));
    m.insert("default_namespace".into(), Value::String(r.default_namespace.clone()));
    m.insert("insecure_skip_tls_verify".into(), Value::Bool(r.insecure_skip_tls_verify));
    Value::Object(m)
}

fn redacted_json(r: &RedactedCluster) -> String {
    let mut m = serde_json::Map::new();
    m.insert("id".into(), Value::String(uuid::Uuid::from_u128(r.id).to_string()));
    m.insert("name".into(), Value::String(r.name.clone()));
    m.insert("environment".into(), Value::String(environment_text(r.environment).into()));
    m.insert("api_server".into(), Value::String(r.api_server.clone()));
    m.insert("default_namespace".into(), Value::String(r.default_namespace.clone()));
    m.insert("auth_kind".into(), Value::String(r.auth_kind.into()));
    m.insert("has_ca".into(), Value::Bool(r.has_ca));
    m.insert("insecure_skip_tls_verify".into(), Value::Bool(r.insecure_skip_tls_verify));
    Value::Object(m).to_string()
}

#[test]
fn roundtrip_envelope() {
    let key = [9u8; 32];
    let mut data = serde_json::Map::new();
    data.insert("clusters".into(), Value::Array(vec![record_json(&sample(Environment::Dev))]));
    let plaintext = serde_json::to_vec(&Value::Object(data)).unwrap();
    let env = encrypt_envelope(&key, &plaintext).unwrap();
    let pt = decrypt_envelope(&key, &env).unwrap();
    let back: Value = serde_json::from_slice(&pt).unwrap();
    let clusters = back["clusters"].as_array().unwrap();
    assert_eq!(clusters.len(), 1);
    assert_eq!(clusters[0]["name"], "test");
}

#[test]
fn tampered_ciphertext_fails() {
    let key = [1u8; 32];
    let mut env = encrypt_envelope(&key, b"hello").unwrap();
    // flip a byte
    let mut ct = B64.decode(env.ciphertext.as_bytes()).unwrap();
    ct[0] ^= 0x01;
    env.ciphertext = B64.encode(ct);
    assert!(decrypt_envelope(&key, &env).is_err());
}

#[test]
fn redaction_strips_secrets() {
    let r = sample(Environment::Prod);
    let red = RedactedCluster::from(&r);
    let json = redacted_json(&red);
    assert!(!json.contains("tkn"));
    assert!(!json.contains("BEGIN CERTIFICATE"));
}

// ---- further cases ----

#[test]
fn envelope_format_and_errors() {
    let key = [3u8; 32];
    let env = encrypt_envelope(&key, b"payload").unwrap();
    assert_eq!(env.v, 1);
    assert_eq!(B64.decode(env.nonce.as_bytes()).unwrap().len(), 12);
    // the ciphertext is not the text: it is sealed, with a 16-byte tag
    let ct = B64.decode(env.ciphertext.as_bytes()).unwrap();
    assert_eq!(ct.len(), b"payload".len() + 16);
    assert_ne!(&ct[..7], b"payload");
    // the wrong key fails
    assert!(matches!(decrypt_envelope(&[4u8; 32], &env), Err(AppError::Crypto)));
    // an unknown version is refused before anything else
    let mut v2 = env.clone();
    v2.v = 2;
    match decrypt_envelope(&key, &v2) {
        Err(e) => assert_eq!(e.message(), "storage error: unsupported store version 2"),
        Ok(_) => panic!("expected an error"),
    }
    // a nonce of the wrong size or bad base64 fails
    let mut short = env.clone();
    short.nonce = B64.encode([0u8; 8]);
    assert!(matches!(decrypt_envelope(&key, &short), Err(AppError::Crypto)));
    let mut garbled = env.clone();
    garbled.ciphertext = "not base64!".into();
    assert!(matches!(decrypt_envelope(&key, &garbled), Err(AppError::Crypto)));
    // two encryptions of the same text differ (fresh nonces)
    let again = encrypt_envelope(&key, b"payload").unwrap();
    assert_ne!(again.nonce, env.nonce);
    assert_eq!(decrypt_envelope(&key, &again).unwrap(), b"payload".to_vec());
}

#[test]
fn validation_rules() {
    let mut r = sample(Environment::Dev);
    assert!(validate(&r).is_ok());
    r.name = "  ".into();
    assert!(matches!(validate(&r), Err(AppError::BadInput(m)) if m == "name required"));
    r.name = "x".into();
    r.api_server = "ftp://x".into();
    assert!(matches!(validate(&r), Err(AppError::BadInput(m)) if m == "api_server must be a URL"));
    r.api_server = "http://x".into();
    r.ca_pem = String::new();
    assert!(matches!(
        validate(&r),
        Err(AppError::BadInput(m)) if m == "either ca_pem or insecure_skip_tls_verify is required"
    ));
    r.insecure_skip_tls_verify = true;
    assert!(validate(&r).is_ok());
}

#[test]
fn store_add_get_update_delete() {
    let mut store = EncryptedStore::from_parts(vec![0u8; 32], Vec::new());
    let mut rec = sample(Environment::Staging);
    rec.id = 0;
    let red = store.add(rec).unwrap();
    assert_ne!(red.id, 0);
    assert_eq!(red.auth_kind, "bearer_token");
    assert!(red.has_ca);
    let got = store.get(red.id).unwrap();
    assert_eq!(got.name, "test");

    let mut changed = got.duplicate();
    changed.name = "renamed".into();
    let red2 = store.update(changed).unwrap();
    assert_eq!(red2.name, "renamed");
    assert_eq!(store.get(red.id).unwrap().name, "renamed");
    assert_eq!(store.list().len(), 1);

    let mut stranger = sample(Environment::Dev);
    stranger.id = 5;
    assert!(matches!(store.update(stranger), Err(AppError::NotFound)));

    let mut bad = sample(Environment::Dev);
    bad.name = String::new();
    assert!(matches!(store.add(bad), Err(AppError::BadInput(_))));
    assert_eq!(store.list().len(), 1);

    assert!(store.delete(red.id).is_ok());
    assert!(matches!(store.get(red.id), Err(AppError::NotFound)));
    assert!(matches!(store.delete(red.id), Err(AppError::NotFound)));
    assert_eq!(store.list().len(), 0);
}

#[test]
fn store_keeps_given_ids_and_deletes_only_one() {
    let mut store = EncryptedStore::from_parts(vec![0u8; 32], Vec::new());
    let mut a = sample(Environment::Dev);
    a.id = 11;
    let mut b = sample(Environment::Prod);
    b.id = 12;
    b.name = "other".into();
    assert_eq!(store.add(a).unwrap().id, 11);
    assert_eq!(store.add(b).unwrap().id, 12);
    store.delete(11).unwrap();
    assert_eq!(store.get(12).unwrap().name, "other");
    let listed = store.list();
    assert_eq!(listed.len(), 1);
    assert_eq!(listed[0].environment, Environment::Prod);
    assert!(!format!("{:?}", listed[0]).contains("tkn"));
}

#[test]
fn listing_does_not_depend_on_secrets() {
    let a = sample(Environment::Dev);
    let mut b = a.duplicate();
    b.auth = Auth::BearerToken { token: "another-token".into() };
    b.ca_pem = "OTHER CA".into();
    assert_eq!(format!("{:?}", RedactedCluster::from(&a)), format!("{:?}", RedactedCluster::from(&b)));
}

#[test]
fn master_key_text_round_trip() {
    let key = new_master_key();
    assert_eq!(key.len(), 32);
    let text = master_key_text(&key);
    assert_eq!(master_key_from_text(&text).unwrap(), key);
    assert!(matches!(master_key_from_text(&B64.encode([1u8; 16])), Err(AppError::Crypto)));
    assert!(matches!(master_key_from_text("***"), Err(AppError::Crypto)));
}

#[test]
fn master_key_lookup_order() {
    let key: Vec<u8> = (0u8..32).collect();
    let text = master_key_text(&key);
    // the keychain entry is used as it is, and not written back
    match next_key_step(KeyStep::Keychain, KeyRead::Found(text.clone())) {
        KeyAction::Use { key: k, promote } => {
            assert_eq!(k, key);
            assert!(!promote);
        }
        _ => panic!("expected the keychain key"),
    }
    // no entry, or no keychain: the key file is next
    assert!(matches!(next_key_step(KeyStep::Keychain, KeyRead::Missing), KeyAction::ReadFile));
    assert!(matches!(
        next_key_step(KeyStep::Keychain, KeyRead::Unavailable("locked".into())),
        KeyAction::ReadFile
    ));
    // the file's text is trimmed, and the key is promoted to the keychain
    match next_key_step(KeyStep::KeyFile, KeyRead::Found(format!("{}\n", text))) {
        KeyAction::Use { key: k, promote } => {
            assert_eq!(k, key);
            assert!(promote);
        }
        _ => panic!("expected the file key"),
    }
    // no file: a new key
    assert!(matches!(next_key_step(KeyStep::KeyFile, KeyRead::Missing), KeyAction::Generate));
    // an unreadable file stops, as a storage error
    match next_key_step(KeyStep::KeyFile, KeyRead::Unavailable("permission denied".into())) {
        KeyAction::Fail(AppError::Storage(m)) => assert_eq!(m, "permission denied"),
        _ => panic!("expected a storage error"),
    }
    // a kept text that is no 32-byte key is a crypto error, wherever it is kept
    let short = B64.encode([1u8; 16]);
    assert!(matches!(next_key_step(KeyStep::Keychain, KeyRead::Found(short.clone())), KeyAction::Fail(AppError::Crypto)));
    assert!(matches!(next_key_step(KeyStep::KeyFile, KeyRead::Found("not base64!".into())), KeyAction::Fail(AppError::Crypto)));
}

#[test]
fn store_file_that_does_not_open_is_reset() {
    assert!(matches!(store_opening(Err(AppError::Crypto)), StoreOpening::Reset));
    match store_opening(Err(AppError::Storage("json: eof".into()))) {
        StoreOpening::Fail(AppError::Storage(m)) => assert_eq!(m, "json: eof"),
        _ => panic!("expected the error to stand"),
    }
    match store_opening(Ok(vec![sample(Environment::Dev)])) {
        StoreOpening::Records(rs) => assert_eq!(rs.len(), 1),
        _ => panic!("expected the records"),
    }
}

#[test]
fn store_key_is_kept() {
    let key = new_master_key();
    let store = EncryptedStore::from_parts(key.clone(), Vec::new());
    assert_eq!(store.key(), key.as_slice());
    assert_eq!(store.key().len(), 32);
}
