use service_skeleton::config::{
    determine_optional_value, determine_value, fetch_encrypted_field, parse_u64, Fetched, Key,
    KeyCache,
};
use service_skeleton::crypto::{encrypt, make_key};
use service_skeleton::env::EnvMap;
use service_skeleton::error::Error;
use service_skeleton::schema::{build, env_var_name, resolve_pass, FieldKind, FieldSpec, PassOutcome};

fn parse_string(s: &str) -> Result<String, String> {
    Ok(s.to_string())
}

#[test]
fn precedence_raw_value_wins_over_default() {
    let r = determine_value("APP_NAME", parse_string, Some("from-env"), Some("from-default"));
    assert_eq!("from-env", r.unwrap().as_str());
}

#[test]
fn precedence_default_used_when_raw_absent() {
    let r = determine_value("APP_NAME", parse_string, None, Some("from-default"));
    assert_eq!("from-default", r.unwrap().as_str());
}

#[test]
fn precedence_both_absent_required_is_missing() {
    let r = determine_value("APP_NAME", parse_string, None, None);
    match r {
        Err(Error::ConfigValueRequired { var }) => assert_eq!("APP_NAME", var.as_str()),
        _ => panic!("expected a missing-value failure"),
    }
}

#[test]
fn precedence_both_absent_optional_is_none() {
    let r = determine_optional_value("APP_NAME", parse_string, None, None);
    assert!(r.unwrap().is_none());
}

#[test]
fn optional_present_but_unparsable_is_still_an_error() {
    let r = determine_optional_value("APP_PORT", parse_u64, Some("not-a-number"), None);
    match r {
        Err(Error::ConfigValueParse { var, .. }) => assert_eq!("APP_PORT", var.as_str()),
        _ => panic!("expected a parse failure"),
    }
}

#[test]
fn parse_u64_exact_values() {
    assert_eq!(0, parse_u64("0").unwrap());
    assert_eq!(123, parse_u64("123").unwrap());
    assert_eq!(u64::MAX, parse_u64("18446744073709551615").unwrap());
    assert!(parse_u64("18446744073709551616").is_err());
    assert!(parse_u64("").is_err());
    assert!(parse_u64("12a").is_err());
    assert!(parse_u64("-1").is_err());
}

#[test]
fn key_read_failure_description() {
    let e = Error::key_read("/missing/key", "no such file".to_string());
    assert_eq!("failed to read key from /missing/key: no such file", e.describe().as_str());
}

#[test]
fn env_var_names_are_shouty_snake() {
    assert_eq!("FOO_DA_KEY", env_var_name("FOO", "da_key").as_str());
    assert_eq!("FOO_SECRET_STRING", env_var_name("FOO", "secretString").as_str());
    assert_eq!("FOO_VALUE", env_var_name("FOO", "value").as_str());
}

#[test]
fn purge_removes_only_the_named_variable() {
    let mut env = EnvMap::new(vec![
        ("A".to_string(), "1".to_string()),
        ("B".to_string(), "2".to_string()),
    ]);
    env.remove("A");
    assert!(env.get("A").is_none());
    assert_eq!("2", env.get("B").unwrap().as_str());
}

#[test]
fn key_cache_reuse_one_read_for_two_fields() {
    let (prv, pb) = make_key().unwrap();
    let first = encrypt("one", "FOO_FIRST", pb.token().as_str()).unwrap();
    let second = encrypt("two", "FOO_SECOND", pb.token().as_str()).unwrap();
    let schema = build()
        .field(
            FieldSpec::new("first".to_string(), FieldKind::Text)
                .encrypted_with("da_key".to_string()),
        )
        .field(
            FieldSpec::new("second".to_string(), FieldKind::Text)
                .encrypted_with("da_key".to_string()),
        )
        .finish();
    let mut env = EnvMap::new(vec![
        ("FOO_FIRST".to_string(), first),
        ("FOO_SECOND".to_string(), second),
        ("FOO_DA_KEY".to_string(), "shared.key".to_string()),
    ]);
    let mut cache = KeyCache::new();
    let mut reads: usize = 0;
    loop {
        match resolve_pass("FOO", &schema, &mut env, &cache) {
            PassOutcome::NeedKeyFile { key, path } => {
                reads += 1;
                assert_eq!("shared.key", path.as_str());
                cache.load(&key, prv.token().as_str());
            },
            PassOutcome::Finished(cfg) => {
                assert_eq!("one", cfg.text_value("first").unwrap().as_str());
                assert_eq!("two", cfg.text_value("second").unwrap().as_str());
                break;
            },
            PassOutcome::Failed(e) => panic!("resolution failed: {}", e.describe()),
        }
    }
    assert_eq!(1, reads, "two fields sharing one key spec cause exactly one file read");
}

#[test]
fn fetch_step_reports_key_file_path_then_decrypts() {
    let (prv, pb) = make_key().unwrap();
    let cipher = encrypt("hidden", "FOO_SECRET", pb.token().as_str()).unwrap();
    let env = EnvMap::new(vec![
        ("FOO_SECRET".to_string(), cipher),
        ("FOO_DA_KEY".to_string(), "k.key".to_string()),
    ]);
    let mut cache = KeyCache::new();
    let spec = Key::File("FOO_DA_KEY".to_string());
    match fetch_encrypted_field(&env, &cache, "FOO_SECRET", &spec).unwrap() {
        Fetched::NeedKeyFile { path } => assert_eq!("k.key", path.as_str()),
        _ => panic!("expected a key-file request"),
    }
    // Key files may end with a newline; loading trims it.
    cache.load(&spec, format!("{}\n", prv.token().as_str()).as_str());
    match fetch_encrypted_field(&env, &cache, "FOO_SECRET", &spec).unwrap() {
        Fetched::Plaintext(s) => assert_eq!("hidden", s.as_str()),
        _ => panic!("expected plaintext"),
    }
}

#[test]
fn fetch_absent_value_is_absent_not_an_error() {
    let env = EnvMap::new(vec![("FOO_DA_KEY".to_string(), "k.key".to_string())]);
    let cache = KeyCache::new();
    let spec = Key::File("FOO_DA_KEY".to_string());
    match fetch_encrypted_field(&env, &cache, "FOO_SECRET", &spec).unwrap() {
        Fetched::Absent => {},
        _ => panic!("expected absence"),
    }
}

#[test]
fn fetch_missing_key_variable_is_a_missing_value_failure() {
    let env = EnvMap::new(vec![("FOO_SECRET".to_string(), "whatever".to_string())]);
    let cache = KeyCache::new();
    let spec = Key::File("FOO_DA_KEY".to_string());
    match fetch_encrypted_field(&env, &cache, "FOO_SECRET", &spec) {
        Err(Error::ConfigValueRequired { var }) => assert_eq!("FOO_DA_KEY", var.as_str()),
        _ => panic!("expected a missing-value failure"),
    }
}

#[test]
fn scenario_defaults_options_and_secrets() {
    // NAME unset with default "World" resolves to "World"; VALUE unset with
    // no default resolves to nothing; SECRET_STRING decrypts to its original
    // plaintext; a tampered ciphertext is a crypto failure.
    let (prv, pb) = make_key().unwrap();
    let cipher = encrypt("s3kr1t", "FOO_SECRET_STRING", pb.token().as_str()).unwrap();
    let schema = build()
        .field(FieldSpec::new("name".to_string(), FieldKind::Text).with_default("World".to_string()))
        .field(FieldSpec::new("value".to_string(), FieldKind::Unsigned).mark_optional())
        .field(
            FieldSpec::new("secret_string".to_string(), FieldKind::Text)
                .encrypted_with("da_key".to_string()),
        )
        .finish();
    let mut env = EnvMap::new(vec![
        ("FOO_SECRET_STRING".to_string(), cipher.clone()),
        ("FOO_DA_KEY".to_string(), "da_key.key".to_string()),
    ]);
    let mut cache = KeyCache::new();
    cache.load(&Key::File("FOO_DA_KEY".to_string()), prv.token().as_str());
    match resolve_pass("FOO", &schema, &mut env, &cache) {
        PassOutcome::Finished(cfg) => {
            assert_eq!("World", cfg.text_value("name").unwrap().as_str());
            assert_eq!(None, cfg.unsigned_value("value"));
            assert_eq!("s3kr1t", cfg.text_value("secret_string").unwrap().as_str());
        },
        _ => panic!("resolution should succeed"),
    }

    // Tamper with one base64 character of the ciphertext.
    let mut chars: Vec<char> = cipher.chars().collect();
    let mid = chars.len() / 2;
    chars[mid] = if chars[mid] == 'A' { 'B' } else { 'A' };
    let tampered: String = chars.into_iter().collect();
    let mut env = EnvMap::new(vec![
        ("FOO_SECRET_STRING".to_string(), tampered),
        ("FOO_DA_KEY".to_string(), "da_key.key".to_string()),
    ]);
    match resolve_pass("FOO", &schema, &mut env, &cache) {
        PassOutcome::Failed(Error::Cryptography { .. }) => {},
        _ => panic!("a tampered ciphertext must be a crypto failure"),
    }
}

#[test]
fn absent_encrypted_field_uses_default_like_a_plain_one() {
    // Absence of an encrypted field is handled exactly like absence of a
    // plain field: the default applies, and no key is ever requested.
    let schema = build()
        .field(
            FieldSpec::new("greeting".to_string(), FieldKind::Text)
                .encrypted_with("da_key".to_string())
                .with_default("hello".to_string()),
        )
        .finish();
    let mut env = EnvMap::new(vec![("FOO_DA_KEY".to_string(), "k.key".to_string())]);
    let cache = KeyCache::new();
    match resolve_pass("FOO", &schema, &mut env, &cache) {
        PassOutcome::Finished(cfg) => {
            assert_eq!("hello", cfg.text_value("greeting").unwrap().as_str());
        },
        _ => panic!("resolution should succeed without touching the key"),
    }
}

#[test]
fn prefix_is_case_folded_for_addressing() {
    let schema = build()
        .field(FieldSpec::new("name".to_string(), FieldKind::Text))
        .finish();
    let mut env = EnvMap::new(vec![("MY_SERVICE_NAME".to_string(), "x".to_string())]);
    let cache = KeyCache::new();
    match resolve_pass("my-service", &schema, &mut env, &cache) {
        PassOutcome::Finished(cfg) => {
            assert_eq!("x", cfg.text_value("name").unwrap().as_str());
        },
        _ => panic!("resolution should succeed"),
    }
}

#[test]
fn fail_fast_stops_at_first_failure() {
    let schema = build()
        .field(FieldSpec::new("first".to_string(), FieldKind::Unsigned))
        .field(FieldSpec::new("second".to_string(), FieldKind::Unsigned))
        .finish();
    let mut env = EnvMap::new(vec![("FOO_SECOND".to_string(), "2".to_string())]);
    let cache = KeyCache::new();
    match resolve_pass("FOO", &schema, &mut env, &cache) {
        PassOutcome::Failed(Error::ConfigValueRequired { var }) => {
            assert_eq!("FOO_FIRST", var.as_str());
        },
        _ => panic!("expected the first field's failure"),
    }
    // A failed pass does not purge anything.
    assert_eq!("2", env.get("FOO_SECOND").unwrap().as_str());
}
