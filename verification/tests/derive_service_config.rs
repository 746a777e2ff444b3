use service_skeleton::config::KeyCache;
use service_skeleton::crypto::{encrypt, make_key};
use service_skeleton::env::EnvMap;
use service_skeleton::schema::{build, resolve_pass, FieldKind, FieldSpec, PassOutcome};

fn finish(
    prefix: &str,
    schema: &Vec<FieldSpec>,
    env: &mut EnvMap,
    key_files: &Vec<(String, String)>,
) -> PassOutcome {
    let mut cache = KeyCache::new();
    let mut reads: usize = 0;
    loop {
        match resolve_pass(prefix, schema, env, &cache) {
            PassOutcome::NeedKeyFile { key, path } => {
                reads += 1;
                assert!(reads <= 16, "key files must not be re-read");
                let mut contents: Option<&String> = None;
                for entry in key_files.iter() {
                    if entry.0 == path {
                        contents = Some(&entry.1);
                    }
                }
                let contents = contents.expect("key file should exist");
                cache.load(&key, contents.as_str());
            },
            other => {
                return other;
            },
        }
    }
}

#[test]
fn test_default_parse() {
    let schema = build()
        .field(FieldSpec::new("value".to_string(), FieldKind::Unsigned).mark_optional())
        .finish();
    let mut env = EnvMap::new(vec![]);
    let cache = KeyCache::new();
    match resolve_pass("FOO", &schema, &mut env, &cache) {
        PassOutcome::Finished(cfg) => {
            assert_eq!(None, cfg.unsigned_value("value"));
        },
        _ => panic!("resolution should succeed"),
    }
}

#[test]
fn test_parse_secrets() {
    let schema = build()
        .field(FieldSpec::new("value".to_string(), FieldKind::SecretText).mark_sensitive())
        .finish();
    let mut env = EnvMap::new(vec![("FOO_VALUE".to_string(), "s3kr1t".to_string())]);
    let cache = KeyCache::new();
    match resolve_pass("FOO", &schema, &mut env, &cache) {
        PassOutcome::Finished(cfg) => {
            assert_eq!(
                "s3kr1t",
                cfg.secret_value("value").expect("value should be set").expose_secret().as_str()
            );
            // The sensitive variable was purged from the environment view.
            assert!(env.get("FOO_VALUE").is_none());
            assert_eq!(1, cfg.purged_vars().len());
            assert_eq!("FOO_VALUE", cfg.purged_vars()[0].as_str());
        },
        _ => panic!("resolution should succeed"),
    }
}

#[test]
fn test_encrypted_config() {
    let (prv, pb) = make_key().expect("keypair generation should succeed");
    let secret_string = encrypt("s3kr1t", "FOO_SECRET_STRING", pb.token().as_str()).unwrap();
    let secret_address = encrypt("192.0.2.42", "FOO_SECRET_ADDRESS", pb.token().as_str()).unwrap();

    let schema = build()
        .field(FieldSpec::new("name".to_string(), FieldKind::Text))
        .field(
            FieldSpec::new("secret_string".to_string(), FieldKind::Text)
                .encrypted_with("da_key".to_string()),
        )
        .field(
            FieldSpec::new("maybe_secret".to_string(), FieldKind::Text)
                .encrypted_with("da_key".to_string())
                .mark_optional(),
        )
        .field(
            FieldSpec::new("secret_address".to_string(), FieldKind::Text)
                .encrypted_with("da_key".to_string()),
        )
        .finish();

    let mut env = EnvMap::new(
        vec![
            ("FOO_NAME".to_string(), "Jaime".to_string()),
            ("FOO_SECRET_STRING".to_string(), secret_string),
            ("FOO_SECRET_ADDRESS".to_string(), secret_address),
            ("FOO_DA_KEY".to_string(), "./tests/test_encrypted_config.key".to_string()),
        ],
    );
    let key_files = vec![
        (
            "./tests/test_encrypted_config.key".to_string(),
            format!("{}\n", prv.token().as_str()),
        ),
    ];

    match finish("FOO", &schema, &mut env, &key_files) {
        PassOutcome::Finished(cfg) => {
            assert_eq!("Jaime", cfg.text_value("name").unwrap().as_str());
            assert_eq!("s3kr1t", cfg.text_value("secret_string").unwrap().as_str());
            assert!(cfg.is_absent("maybe_secret"));
            assert_eq!("192.0.2.42", cfg.text_value("secret_address").unwrap().as_str());
        },
        _ => panic!("resolution should succeed"),
    }
}
