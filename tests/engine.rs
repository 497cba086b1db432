use web_settings::config::{
    Choice, ConfigBool, ConfigInteger, ConfigItem, ConfigSelection, ConfigString, ConfigValue,
};
use web_settings::error::ModelError;
use web_settings::model::{Model, Poll, Registration, Secret, Values};

fn item(name: &str, title: &str, value: ConfigValue) -> ConfigItem {
    ConfigItem { name: name.to_owned(), title: title.to_owned(), value }
}

fn schema() -> Vec<ConfigItem> {
    vec![
        item(
            "a",
            "TestA",
            ConfigValue::String(ConfigString { value: "qwerty".to_owned() }),
        ),
        item(
            "b",
            "TestB",
            ConfigValue::Integer(ConfigInteger::new(0, 100, 33).unwrap()),
        ),
        item(
            "c",
            "TestC",
            ConfigValue::Selection(
                ConfigSelection::new(
                    "foo".to_owned(),
                    vec![
                        Choice::new("foo".to_owned(), "Foo!".to_owned()),
                        Choice::new("bar".to_owned(), "Bar!".to_owned()),
                    ],
                )
                .unwrap(),
            ),
        ),
        item("d", "TestD", ConfigValue::Bool(ConfigBool::new(true))),
    ]
}

fn fields(pairs: &[(&str, &str)]) -> Vec<(String, String)> {
    pairs.iter().map(|(n, v)| (n.to_string(), v.to_string())).collect()
}

fn text_of(values: &[ConfigItem], name: &str) -> String {
    match &values.iter().find(|v| v.name == name).unwrap().value {
        ConfigValue::String(c) => c.value.clone(),
        ConfigValue::Selection(c) => c.raw().value.clone(),
        _ => panic!("not a text item"),
    }
}

fn int_of(values: &[ConfigItem], name: &str) -> u32 {
    match &values.iter().find(|v| v.name == name).unwrap().value {
        ConfigValue::Integer(c) => c.raw().value,
        _ => panic!("not an integer item"),
    }
}

fn bool_of(values: &[ConfigItem], name: &str) -> bool {
    match &values.iter().find(|v| v.name == name).unwrap().value {
        ConfigValue::Bool(c) => c.value,
        _ => panic!("not a boolean item"),
    }
}

fn ready(p: Poll<u32>) -> Values {
    match p {
        Poll::Ready(v) => v,
        Poll::Failed(e) => panic!("poll failed: {:?}", e),
        Poll::Waiting(_) => panic!("poll waits"),
    }
}

fn register(m: &mut Model<u32>) -> (String, Secret) {
    m.new_client(schema()).unwrap()
}

#[test]
fn happy_workflow() {
    let mut m: Model<u32> = Model::new();
    let (key, secret) = register(&mut m);
    assert!(!key.is_empty());
    assert!(!secret.to_string().is_empty());

    // The device polls at revision 0 and waits.
    match m.values(&secret, 0, 7) {
        Poll::Waiting(None) => {}
        _ => panic!("first poll must wait"),
    }

    // Redeeming the key wakes it with revision 0 and the registered values.
    let (sid, notice) = m.auth(&key).unwrap();
    assert_eq!(sid.to_string(), secret.to_string());
    let notice = notice.expect("the waiting poll is woken");
    assert_eq!(notice.waiter, 7);
    assert_eq!(notice.values.revision, 0);
    assert_eq!(text_of(&notice.values.values, "a"), "qwerty");

    // The settings page shows the current values.
    assert_eq!(text_of(m.settings(&sid).unwrap(), "a"), "qwerty");

    // The person submits a new value.
    let woken = m.update_settings(&sid, &fields(&[("a", "sometext")])).unwrap();
    assert!(woken.is_none());

    // A fresh poll at revision 0 is answered at once with revision 1.
    let v = ready(m.values(&secret, 0, 8));
    assert_eq!(v.revision, 1);
    assert_eq!(text_of(&v.values, "a"), "sometext");

    // The device ends the session.
    assert_eq!(m.remove_client(&secret), Ok(()));
}

#[test]
fn key_is_single_use() {
    let mut m: Model<u32> = Model::new();
    let (key, _) = register(&mut m);
    assert!(m.auth(&key).is_ok());
    assert_eq!(m.auth(&key).err(), Some(ModelError::InvalidKey));
}

#[test]
fn unknown_key_is_invalid() {
    let mut m: Model<u32> = Model::new();
    register(&mut m);
    assert_eq!(m.auth("nope").err(), Some(ModelError::InvalidKey));
}

#[test]
fn key_expires_after_window() {
    let mut m: Model<u32> = Model::new();
    let (key, _) = register(&mut m);
    assert_eq!(m.auth_at(&key, u64::MAX).err(), Some(ModelError::KeyExpired));
    // An expired key is used up as well.
    assert_eq!(m.auth_at(&key, 0).err(), Some(ModelError::InvalidKey));
}

#[test]
fn key_redeemed_before_expiry_succeeds() {
    let mut m: Model<u32> = Model::new();
    let (key, secret) = register(&mut m);
    // A clock behind the issue time counts as no time passed.
    let (sid, notice) = m.auth_at(&key, 0).unwrap();
    assert_eq!(sid.to_string(), secret.to_string());
    assert!(notice.is_none());
}

#[test]
fn key_of_removed_session_reports_session_expired() {
    let mut m: Model<u32> = Model::new();
    let (key, secret) = register(&mut m);
    m.remove_client(&secret).unwrap();
    assert_eq!(m.auth(&key).err(), Some(ModelError::SessionExpired));
}

#[test]
fn revision_advances_by_one() {
    let mut m: Model<u32> = Model::new();
    let (_, secret) = register(&mut m);
    for expected in 1..=3u32 {
        m.update_settings(&secret, &fields(&[])).unwrap();
        assert_eq!(m.revision(&secret), Some(expected));
        let v = ready(m.values(&secret, expected - 1, 0));
        assert_eq!(v.revision, expected);
    }
}

#[test]
fn poll_at_current_revision_waits_for_next_submission() {
    let mut m: Model<u32> = Model::new();
    let (_, secret) = register(&mut m);
    m.update_settings(&secret, &fields(&[("b", "50")])).unwrap();
    match m.values(&secret, 1, 11) {
        Poll::Waiting(None) => {}
        _ => panic!("poll at the current revision must wait"),
    }
    let notice = m
        .update_settings(&secret, &fields(&[("b", "60")]))
        .unwrap()
        .expect("waiting poll is woken");
    assert_eq!(notice.waiter, 11);
    assert_eq!(notice.values.revision, 2);
    assert_eq!(int_of(&notice.values.values, "b"), 60);
}

#[test]
fn poll_ahead_of_session_fails() {
    let mut m: Model<u32> = Model::new();
    let (_, secret) = register(&mut m);
    match m.values(&secret, 1, 0) {
        Poll::Failed(e) => assert_eq!(e, ModelError::FutureRevision),
        _ => panic!("a revision ahead of the session must fail"),
    }
}

#[test]
fn poll_on_unknown_session_fails() {
    let mut m: Model<u32> = Model::new();
    let (_, secret) = register(&mut m);
    m.remove_client(&secret).unwrap();
    match m.values(&secret, 0, 0) {
        Poll::Failed(e) => assert_eq!(e, ModelError::NotFound),
        _ => panic!("an unknown session must fail"),
    }
}

#[test]
fn login_wakes_poll_at_revision_zero() {
    let mut m: Model<u32> = Model::new();
    let (key, secret) = register(&mut m);
    assert!(matches!(m.values(&secret, 0, 5), Poll::Waiting(None)));
    let (_, notice) = m.auth(&key).unwrap();
    let notice = notice.unwrap();
    assert_eq!(notice.waiter, 5);
    assert_eq!(notice.values.revision, 0);
    assert_eq!(text_of(&notice.values.values, "a"), "qwerty");
    assert_eq!(int_of(&notice.values.values, "b"), 33);
    assert_eq!(text_of(&notice.values.values, "c"), "foo");
    assert!(bool_of(&notice.values.values, "d"));
}

#[test]
fn second_poll_supersedes_first() {
    let mut m: Model<u32> = Model::new();
    let (_, secret) = register(&mut m);
    assert!(matches!(m.values(&secret, 0, 1), Poll::Waiting(None)));
    match m.values(&secret, 0, 2) {
        Poll::Waiting(Some(first)) => assert_eq!(first, 1),
        _ => panic!("the first poll must be handed back"),
    }
    let notice = m.update_settings(&secret, &fields(&[])).unwrap();
    assert_eq!(notice.unwrap().waiter, 2);
}

#[test]
fn integer_out_of_range_is_refused() {
    let mut m: Model<u32> = Model::new();
    let (_, secret) = register(&mut m);
    assert_eq!(
        m.update_settings(&secret, &fields(&[("b", "150")])).err(),
        Some(ModelError::BadValue)
    );
    assert_eq!(int_of(m.settings(&secret).unwrap(), "b"), 33);
    assert_eq!(m.revision(&secret), Some(0));
}

#[test]
fn selection_off_menu_is_refused() {
    let mut m: Model<u32> = Model::new();
    let (_, secret) = register(&mut m);
    assert_eq!(
        m.update_settings(&secret, &fields(&[("c", "baz")])).err(),
        Some(ModelError::BadValue)
    );
    assert_eq!(text_of(m.settings(&secret).unwrap(), "c"), "foo");
    m.update_settings(&secret, &fields(&[("c", "bar")])).unwrap();
    assert_eq!(text_of(m.settings(&secret).unwrap(), "c"), "bar");
}

#[test]
fn refused_submission_changes_no_item() {
    let mut m: Model<u32> = Model::new();
    let (_, secret) = register(&mut m);
    assert_eq!(
        m.update_settings(&secret, &fields(&[("a", "changed"), ("b", "x")])).err(),
        Some(ModelError::BadValue)
    );
    assert_eq!(text_of(m.settings(&secret).unwrap(), "a"), "qwerty");
}

#[test]
fn absent_fields_keep_their_values() {
    let mut m: Model<u32> = Model::new();
    let (_, secret) = register(&mut m);
    m.update_settings(&secret, &fields(&[("b", "7")])).unwrap();
    let items = m.settings(&secret).unwrap();
    assert_eq!(int_of(items, "b"), 7);
    assert_eq!(text_of(items, "a"), "qwerty");
    assert!(bool_of(items, "d"));
}

#[test]
fn last_duplicate_field_counts() {
    let mut m: Model<u32> = Model::new();
    let (_, secret) = register(&mut m);
    m.update_settings(&secret, &fields(&[("b", "1"), ("b", "2")])).unwrap();
    assert_eq!(int_of(m.settings(&secret).unwrap(), "b"), 2);
}

#[test]
fn boolean_is_on_only_for_on() {
    let mut m: Model<u32> = Model::new();
    let (_, secret) = register(&mut m);
    m.update_settings(&secret, &fields(&[("d", "off")])).unwrap();
    assert!(!bool_of(m.settings(&secret).unwrap(), "d"));
    m.update_settings(&secret, &fields(&[("d", "on")])).unwrap();
    assert!(bool_of(m.settings(&secret).unwrap(), "d"));
}

#[test]
fn unknown_session_update_is_invalid() {
    let mut m: Model<u32> = Model::new();
    let secret = Secret::new("missing".to_owned());
    assert_eq!(
        m.update_settings(&secret, &fields(&[])).err(),
        Some(ModelError::InvalidSession)
    );
    assert_eq!(m.settings(&secret).err(), Some(ModelError::InvalidSession));
}

#[test]
fn remove_twice_reports_not_found() {
    let mut m: Model<u32> = Model::new();
    let (_, secret) = register(&mut m);
    assert_eq!(m.remove_client(&secret), Ok(()));
    assert_eq!(m.remove_client(&secret), Err(ModelError::NotFound));
}

#[test]
fn keys_and_secrets_are_url_safe_base64() {
    let mut m: Model<u32> = Model::new();
    let (key, secret) = register(&mut m);
    let url_safe = |s: &str| {
        s.chars().all(|c| c.is_ascii_alphanumeric() || c == '-' || c == '_')
    };
    // 4 random bytes give 6 characters; 64 give 86.
    assert_eq!(key.len(), 6);
    assert_eq!(secret.to_string().len(), 86);
    assert!(url_safe(&key));
    assert!(url_safe(secret.as_str()));
    let (key2, secret2) = register(&mut m);
    assert_ne!(key, key2);
    assert_ne!(secret.to_string(), secret2.to_string());
}

#[test]
fn error_codes() {
    assert_eq!(ModelError::InvalidKey.as_str(), "invalid-key");
    assert_eq!(ModelError::KeyExpired.as_str(), "key-expired");
    assert_eq!(ModelError::SessionExpired.as_str(), "session-expired");
    assert_eq!(ModelError::InvalidSession.as_str(), "invalid-session");
    assert_eq!(ModelError::BadValue.as_str(), "bad value");
}

#[test]
fn key_window_counts_from_registration() {
    let mut m: Model<u32> = Model::new();
    let (key, secret) = m.new_client_at(schema(), 1000).unwrap();
    let (late_key, _) = m.new_client_at(schema(), 1000).unwrap();
    // Just before the window closes.
    let (sid, _) = m.auth_at(&key, 1599).unwrap();
    assert_eq!(sid.to_string(), secret.to_string());
    // When it closes.
    assert_eq!(m.auth_at(&late_key, 1600).err(), Some(ModelError::KeyExpired));
}

#[test]
fn register_under_refuses_secret_in_use() {
    let mut m: Model<u32> = Model::new();
    match m.register_under(Secret::new("s1".to_owned()), schema(), 5) {
        Registration::Opened(key, secret) => {
            assert_eq!(secret.to_string(), "s1");
            assert_eq!(key.len(), 6);
            let (sid, _) = m.auth_at(&key, 5).unwrap();
            assert_eq!(sid.to_string(), "s1");
        }
        _ => panic!("a fresh secret must be taken"),
    }
    match m.register_under(Secret::new("s1".to_owned()), schema(), 6) {
        Registration::SecretInUse(back) => assert_eq!(back.len(), 4),
        _ => panic!("a secret in use must be refused"),
    }
    assert_eq!(m.revision(&Secret::new("s1".to_owned())), Some(0));
}

#[test]
fn every_error_code() {
    assert_eq!(ModelError::NotFound.as_str(), "session does not exists");
    assert_eq!(ModelError::Superseded.as_str(), "superseded");
    assert_eq!(ModelError::FutureRevision.as_str(), "revision is ahead of the session");
    assert_eq!(ModelError::Exhausted.as_str(), "failed to generate a unique key");
}
