use web_settings::config::{
    Choice, ConfigBool, ConfigInteger, ConfigSelection, ConfigString, ConfigValue,
    RawConfigInteger,
};
use web_settings::error::ModelError;
use web_settings::keys::KeyStorage;

fn integer(min: u32, max: u32, value: u32) -> ConfigValue {
    ConfigValue::Integer(ConfigInteger::new(min, max, value).unwrap())
}

fn int_value(v: &ConfigValue) -> u32 {
    match v {
        ConfigValue::Integer(c) => c.raw().value,
        _ => panic!("not an integer"),
    }
}

fn selection() -> ConfigValue {
    ConfigValue::Selection(
        ConfigSelection::new(
            "foo".to_owned(),
            vec![
                Choice::new("foo".to_owned(), "Foo!".to_owned()),
                Choice::new("bar".to_owned(), "Bar!".to_owned()),
            ],
        )
        .unwrap(),
    )
}

#[test]
fn integer_bounds_are_checked_at_construction() {
    assert!(ConfigInteger::new(0, 100, 33).is_ok());
    assert!(ConfigInteger::new(0, 100, 0).is_ok());
    assert!(ConfigInteger::new(0, 100, 100).is_ok());
    assert_eq!(ConfigInteger::new(0, 100, 150).err(), Some("value is not in range"));
    assert!(ConfigInteger::try_from_raw(RawConfigInteger { min: 5, max: 4, value: 5 }).is_err());
}

#[test]
fn selection_value_is_checked_at_construction() {
    let options = vec![Choice::new("foo".to_owned(), "Foo!".to_owned())];
    assert_eq!(
        ConfigSelection::new("baz".to_owned(), options).err(),
        Some("value does not match any choices")
    );
    assert!(ConfigSelection::new("x".to_owned(), vec![]).is_err());
}

#[test]
fn integer_takes_decimal_within_bounds() {
    let mut v = integer(0, 100, 33);
    assert!(v.try_set_value("42"));
    assert_eq!(int_value(&v), 42);
    assert!(v.try_set_value("+7"));
    assert_eq!(int_value(&v), 7);
    assert!(v.try_set_value("100"));
    assert_eq!(int_value(&v), 100);
}

#[test]
fn integer_refuses_and_keeps_value() {
    let mut v = integer(0, 100, 33);
    for bad in ["150", "", "abc", "-1", " 5", "4294967296", "+"] {
        assert!(!v.try_set_value(bad), "{} must be refused", bad);
        assert_eq!(int_value(&v), 33);
    }
    assert!(!v.accepts("101"));
    assert!(v.accepts("0"));
}

#[test]
fn selection_takes_only_options() {
    let mut v = selection();
    assert!(!v.try_set_value("baz"));
    assert!(v.try_set_value("bar"));
    match &v {
        ConfigValue::Selection(c) => assert_eq!(c.raw().value, "bar"),
        _ => unreachable!(),
    }
}

#[test]
fn string_takes_anything() {
    let mut v = ConfigValue::String(ConfigString { value: "qwerty".to_owned() });
    assert!(v.try_set_value(""));
    assert!(v.try_set_value("sometext"));
    match &v {
        ConfigValue::String(c) => assert_eq!(c.value, "sometext"),
        _ => unreachable!(),
    }
}

#[test]
fn boolean_switch() {
    let mut v = ConfigValue::Bool(ConfigBool::new(false));
    assert!(v.try_set_value("on"));
    assert!(matches!(&v, ConfigValue::Bool(c) if c.value));
    assert!(v.try_set_value("ON"));
    assert!(matches!(&v, ConfigValue::Bool(c) if !c.value));
    assert!(ConfigBool::from(true).value);
}

#[test]
fn every_value_is_valid() {
    assert!(integer(1, 2, 2).is_valid());
    assert!(selection().is_valid());
}

#[test]
fn key_store_expiry_window() {
    let mut keys: KeyStorage<String> = KeyStorage::new(600);
    let k1 = keys.new_key_at("one".to_owned(), 1000).unwrap();
    let k2 = keys.new_key_at("two".to_owned(), 1000).unwrap();
    // Just before the window closes.
    assert_eq!(keys.take_data_at(&k1, 1599), Ok("one".to_owned()));
    // When it closes.
    assert_eq!(keys.take_data_at(&k2, 1600), Err(ModelError::KeyExpired));
}

#[test]
fn key_store_single_use() {
    let mut keys: KeyStorage<String> = KeyStorage::new(600);
    let k = keys.new_key("payload".to_owned()).unwrap();
    assert_eq!(keys.take_data(&k), Ok("payload".to_owned()));
    assert_eq!(keys.take_data(&k), Err(ModelError::InvalidKey));
}

#[test]
fn store_under_takes_only_unused_keys() {
    let mut keys: KeyStorage<String> = KeyStorage::new(600);
    assert_eq!(keys.store_under("k".to_owned(), "one".to_owned(), 5), Ok("k".to_owned()));
    assert_eq!(keys.store_under("k".to_owned(), "two".to_owned(), 6), Err("two".to_owned()));
    assert_eq!(keys.take_data_at("k", 10), Ok("one".to_owned()));
    assert_eq!(keys.take_data_at("k", 10), Err(ModelError::InvalidKey));
}
