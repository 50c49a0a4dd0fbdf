use notecognito_core::config::{deserialize_notecards, parse_notecard_key, serialize_notecards};
use notecognito_core::{
    Config, ConfigManager, DisplayProperties, HotkeyModifier, Notecard, NotecardId,
    NotecognitoError,
};
use std::collections::HashMap;

fn id(value: u8) -> NotecardId {
    NotecardId::new(value).unwrap()
}

fn card(value: u8, content: &str) -> Notecard {
    Notecard::new(id(value), content.to_string())
}

fn fresh_store() -> ConfigManager {
    ConfigManager::with_path("config.json".to_string(), None).unwrap()
}

#[test]
fn default_display_properties_have_the_documented_values() {
    let p = DisplayProperties::default();
    assert_eq!(p.opacity, 95);
    assert_eq!(p.position, (100, 100));
    assert_eq!(p.size, (400, 200));
    assert_eq!(p.auto_hide_duration, 0);
    assert_eq!(p.font_family, "System");
    assert_eq!(p.font_size, 16);
    assert!(!p.algorithmic_spacing);
}

#[test]
fn default_config_seeds_nine_empty_notecards() {
    let config = Config::default();
    assert!(!config.launch_on_startup);
    assert_eq!(config.hotkey_modifiers, vec![HotkeyModifier::Control, HotkeyModifier::Shift]);
    assert_eq!(config.default_display_properties, DisplayProperties::default());
    assert_eq!(config.notecards.len(), 9);
    for v in 1u8..=9 {
        let n = config.notecards.get(&v).unwrap();
        assert_eq!(n.id.value(), v);
        assert_eq!(n.content, "");
        assert!(n.is_empty());
    }
}

#[test]
fn clone_of_a_config_equals_the_config() {
    let mut config = Config::default();
    config.notecards.insert(4, card(4, "four"));
    config.hotkey_modifiers = vec![HotkeyModifier::Alt];
    config.default_display_properties.font_family = "Mono".to_string();
    assert_eq!(config.clone(), config);
}

#[test]
fn a_fresh_store_holds_the_default_configuration() {
    let store = fresh_store();
    assert_eq!(store.config_path(), "config.json");
    assert_eq!(store.config(), &Config::default());
    assert_eq!(store.snapshot(), Config::default());
    assert_eq!(store.modifiers(), vec![HotkeyModifier::Control, HotkeyModifier::Shift]);
}

#[test]
fn every_notecard_is_present_after_construction() {
    let store = fresh_store();
    for v in 1u8..=9 {
        assert!(store.get_notecard(id(v)).is_some());
    }
    let mut partial = Config::default();
    partial.notecards.remove(&5);
    partial.notecards.remove(&9);
    let store = ConfigManager::with_path("p".to_string(), Some(partial)).unwrap();
    for v in 1u8..=9 {
        assert!(store.get_notecard(id(v)).is_some());
    }
    assert_eq!(store.get_notecard(id(5)).unwrap(), &Notecard::empty(id(5)));
}

#[test]
fn a_stored_configuration_is_kept_and_normalized() {
    let mut stored = Config::default();
    stored.launch_on_startup = true;
    stored.hotkey_modifiers = vec![HotkeyModifier::Alt, HotkeyModifier::Alt];
    stored.notecards = HashMap::new();
    stored.notecards.insert(2, card(2, "two"));
    stored.notecards.insert(0, card(1, "stray"));
    stored.notecards.insert(200, card(1, "stray"));
    let store = ConfigManager::with_path("p".to_string(), Some(stored)).unwrap();
    let config = store.snapshot();
    assert!(config.launch_on_startup);
    assert_eq!(config.hotkey_modifiers, vec![HotkeyModifier::Alt, HotkeyModifier::Alt]);
    assert_eq!(config.notecards.len(), 9);
    assert_eq!(config.notecards.get(&2).unwrap(), &card(2, "two"));
    assert_eq!(config.notecards.get(&1).unwrap(), &Notecard::empty(id(1)));
    assert!(config.notecards.get(&0).is_none());
    assert!(config.notecards.get(&200).is_none());
}

#[test]
fn a_stored_configuration_with_an_oversized_notecard_is_refused() {
    let mut stored = Config::default();
    stored.notecards.insert(7, card(7, &"x".repeat(10_001)));
    match ConfigManager::with_path("p".to_string(), Some(stored)) {
        Err(NotecognitoError::Config(m)) => assert!(m.contains("maximum length")),
        Err(other) => panic!("unexpected error {:?}", other),
        Ok(_) => panic!("an oversized notecard was accepted"),
    }
}

#[test]
fn update_notecard_replaces_the_entry() {
    let mut store = fresh_store();
    assert_eq!(store.update_notecard(card(3, "hello")), Ok(()));
    assert_eq!(store.get_notecard(id(3)).unwrap(), &card(3, "hello"));
    assert_eq!(store.update_notecard(card(3, "line one\nline two")), Ok(()));
    assert_eq!(store.get_notecard(id(3)).unwrap().content, "line one\nline two");
    for v in [1u8, 2, 4, 5, 6, 7, 8, 9] {
        assert!(store.get_notecard(id(v)).unwrap().is_empty());
    }
}

#[test]
fn update_notecard_over_the_bound_fails_and_changes_nothing() {
    let mut store = fresh_store();
    store.update_notecard(card(1, "kept")).unwrap();
    let before = store.snapshot();
    let r = store.update_notecard(card(1, &"a".repeat(10_001)));
    assert_eq!(
        r,
        Err(NotecognitoError::Config(
            "Notecard content exceeds maximum length of 10000 characters".to_string()
        ))
    );
    assert_eq!(store.snapshot(), before);
}

#[test]
fn update_notecard_at_the_bound_is_accepted() {
    let mut store = fresh_store();
    assert_eq!(store.update_notecard(card(9, &"a".repeat(10_000))), Ok(()));
    assert_eq!(store.get_notecard(id(9)).unwrap().content.len(), 10_000);
}

#[test]
fn the_bound_counts_bytes_not_characters() {
    let mut store = fresh_store();
    // 5000 characters of two bytes each are at the bound, one more is over it.
    assert_eq!(store.update_notecard(card(2, &"é".repeat(5_000))), Ok(()));
    assert!(store.update_notecard(card(2, &"é".repeat(5_001))).is_err());
}

#[test]
fn replace_all_backfills_missing_notecards() {
    let mut store = fresh_store();
    store.update_notecard(card(1, "old")).unwrap();
    let mut config = Config::default();
    config.notecards = HashMap::new();
    config.notecards.insert(4, card(4, "four"));
    config.launch_on_startup = true;
    assert_eq!(store.replace_all(config), Ok(()));
    let now = store.snapshot();
    assert!(now.launch_on_startup);
    assert_eq!(now.notecards.len(), 9);
    assert_eq!(now.notecards.get(&4).unwrap(), &card(4, "four"));
    assert_eq!(now.notecards.get(&1).unwrap(), &Notecard::empty(id(1)));
}

#[test]
fn replace_all_with_an_oversized_notecard_fails_and_changes_nothing() {
    let mut store = fresh_store();
    store.update_notecard(card(1, "kept")).unwrap();
    let before = store.snapshot();
    let mut config = Config::default();
    config.launch_on_startup = true;
    config.notecards.insert(6, card(6, &"b".repeat(10_001)));
    match store.replace_all(config) {
        Err(NotecognitoError::Config(m)) => assert!(m.contains("maximum length")),
        other => panic!("unexpected result {:?}", other),
    }
    assert_eq!(store.snapshot(), before);
}

#[test]
fn set_launch_on_startup_changes_only_the_flag() {
    let mut store = fresh_store();
    store.update_notecard(card(8, "eight")).unwrap();
    let mut expected = store.snapshot();
    store.set_launch_on_startup(true);
    expected.launch_on_startup = true;
    assert_eq!(store.snapshot(), expected);
    store.set_launch_on_startup(false);
    expected.launch_on_startup = false;
    assert_eq!(store.snapshot(), expected);
}

#[test]
fn normalize_keeps_what_is_valid() {
    let mut config = Config::default();
    config.notecards.remove(&3);
    config.notecards.insert(10, card(1, "out"));
    let normal = config.normalize().unwrap();
    assert_eq!(normal, Config::default());
}

#[test]
fn keys_are_decimal_digits() {
    for v in 1u8..=9 {
        assert_eq!(id(v).to_string(), v.to_string());
        assert_eq!(parse_notecard_key(&v.to_string()), Ok(id(v)));
    }
}

#[test]
fn keys_outside_the_range_are_rejected() {
    assert_eq!(parse_notecard_key("0"), Err(NotecognitoError::InvalidNotecardId(0)));
    assert_eq!(parse_notecard_key("10"), Err(NotecognitoError::InvalidNotecardId(10)));
    assert_eq!(parse_notecard_key("255"), Err(NotecognitoError::InvalidNotecardId(255)));
    assert!(matches!(parse_notecard_key("256"), Err(NotecognitoError::Json(_))));
    assert!(matches!(parse_notecard_key(""), Err(NotecognitoError::Json(_))));
    assert!(matches!(parse_notecard_key("one"), Err(NotecognitoError::Json(_))));
    assert!(matches!(parse_notecard_key("-1"), Err(NotecognitoError::Json(_))));
    assert!(matches!(parse_notecard_key(" 1"), Err(NotecognitoError::Json(_))));
}

#[test]
fn keys_are_read_as_std_reads_a_byte() {
    for text in ["+3", "03", "0009", "+", "", "3 ", "3.0", "１", "1_0", "999", "+09"] {
        let expected = text.parse::<u8>().ok().and_then(|v| NotecardId::new(v).ok());
        assert_eq!(parse_notecard_key(text).ok(), expected, "key {:?}", text);
    }
}

#[test]
fn notecards_serialize_in_rising_order_with_digit_keys() {
    let mut config = Config::default();
    config.notecards.insert(3, card(3, "hello"));
    config.notecards.remove(&5);
    let entries = serialize_notecards(&config.notecards);
    let keys: Vec<&str> = entries.iter().map(|e| e.0.as_str()).collect();
    assert_eq!(keys, vec!["1", "2", "3", "4", "6", "7", "8", "9"]);
    assert_eq!(entries[2], ("3".to_string(), card(3, "hello")));
}

#[test]
fn serialized_notecards_read_back_as_they_were() {
    let mut config = Config::default();
    config.notecards.insert(3, card(3, "hello"));
    config.notecards.insert(9, card(9, "nine\nlines"));
    config.notecards.remove(&1);
    let entries = serialize_notecards(&config.notecards);
    assert_eq!(deserialize_notecards(&entries), Ok(config.notecards));
}

#[test]
fn deserialize_rejects_a_key_that_is_no_identifier() {
    let entries = vec![("1".to_string(), card(1, "a")), ("12".to_string(), card(2, "b"))];
    assert_eq!(deserialize_notecards(&entries), Err(NotecognitoError::InvalidNotecardId(12)));
    let entries = vec![("x".to_string(), card(1, "a")), ("12".to_string(), card(2, "b"))];
    assert!(matches!(deserialize_notecards(&entries), Err(NotecognitoError::Json(_))));
}

#[test]
fn a_later_entry_replaces_an_earlier_one_for_the_same_notecard() {
    let entries = vec![("1".to_string(), card(1, "first")), ("01".to_string(), card(1, "second"))];
    let cards = deserialize_notecards(&entries).unwrap();
    assert_eq!(cards.len(), 1);
    assert_eq!(cards.get(&1).unwrap().content, "second");
}
