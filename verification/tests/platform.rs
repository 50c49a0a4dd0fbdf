use notecognito_core::supervisor::{apply_follow_up, startup};
use notecognito_core::ipc::FollowUp;
use notecognito_core::{
    Config, DigitKeycodes, HotkeyManager, HotkeyModifier, LaunchTracker, Notecard, NotecardId,
    NotecognitoError, Platform,
};

fn id(value: u8) -> NotecardId {
    NotecardId::new(value).unwrap()
}

#[test]
fn platforms_have_short_names() {
    assert_eq!(Platform::MacOs.name(), "macos");
    assert_eq!(Platform::Windows.name(), "win");
    assert_eq!(Platform::Linux.name(), "linux");
    assert_eq!(Platform::Unknown.name(), "unknown");
}

#[test]
fn modifiers_are_labelled_for_macos() {
    assert_eq!(HotkeyModifier::Control.display_name(Platform::MacOs), "⌃ Control");
    assert_eq!(HotkeyModifier::Alt.display_name(Platform::MacOs), "⌥ Option");
    assert_eq!(HotkeyModifier::Shift.display_name(Platform::MacOs), "⇧ Shift");
    assert_eq!(HotkeyModifier::Command.display_name(Platform::MacOs), "⌘ Command");
}

#[test]
fn modifiers_are_labelled_for_other_platforms() {
    for platform in [Platform::Windows, Platform::Linux, Platform::Unknown] {
        assert_eq!(HotkeyModifier::Control.display_name(platform), "Ctrl");
        assert_eq!(HotkeyModifier::Alt.display_name(platform), "Alt");
        assert_eq!(HotkeyModifier::Shift.display_name(platform), "Shift");
        assert_eq!(HotkeyModifier::Super.display_name(platform), "⊞ Win");
    }
}

#[test]
fn errors_render_as_text() {
    let cases = vec![
        (NotecognitoError::Io("a".to_string()), "IO error: a"),
        (NotecognitoError::Json("b".to_string()), "JSON serialization error: b"),
        (NotecognitoError::Config("c".to_string()), "Configuration error: c"),
        (NotecognitoError::Ipc("d".to_string()), "IPC error: d"),
        (NotecognitoError::InvalidNotecardId(0), "Invalid notecard ID: 0"),
        (NotecognitoError::InvalidNotecardId(10), "Invalid notecard ID: 10"),
        (NotecognitoError::InvalidNotecardId(255), "Invalid notecard ID: 255"),
        (NotecognitoError::Platform("e".to_string()), "Platform-specific error: e"),
        (NotecognitoError::ConnectionLost, "Connection lost"),
        (NotecognitoError::InvalidMessage, "Invalid message format"),
        (NotecognitoError::PermissionDenied("f".to_string()), "Permission denied: f"),
    ];
    for (error, text) in cases {
        assert_eq!(error.to_string(), text);
    }
}

#[test]
fn try_from_agrees_with_new() {
    for v in 0u8..=255 {
        assert_eq!(NotecardId::try_from(v), NotecardId::new(v));
    }
}

#[test]
fn identifiers_are_ordered_by_their_number() {
    assert!(id(1) < id(2));
    assert!(id(9) > id(8));
    assert_eq!(id(4), id(4));
}

#[test]
fn the_tracker_reports_a_flag_only_when_it_changes() {
    let mut tracker = LaunchTracker::new();
    assert_eq!(tracker.observe(false), None);
    assert_eq!(tracker.observe(true), Some(true));
    assert_eq!(tracker.observe(true), None);
    assert_eq!(tracker.observe(false), Some(false));
    assert_eq!(tracker.observe(false), None);
}

#[test]
fn startup_seeds_the_registry_and_the_launch_flag() {
    let mut config = Config::default();
    config.launch_on_startup = true;
    config.notecards.insert(3, Notecard::new(id(3), "hello".to_string()));
    let mut registry = HotkeyManager::new(DigitKeycodes::macos_ansi());
    let mut tracker = LaunchTracker::new();
    assert_eq!(startup(&config, &mut registry, &mut tracker), Some(true));
    assert_eq!(
        registry.binding(id(3)),
        Some(vec![HotkeyModifier::Control, HotkeyModifier::Shift])
    );
    assert_eq!(registry.binding(id(1)), None);
    assert_eq!(startup(&config, &mut registry, &mut tracker), None);
}

#[test]
fn a_follow_up_does_what_its_kind_says() {
    let mut config = Config::default();
    config.launch_on_startup = true;
    config.notecards.insert(2, Notecard::new(id(2), "two".to_string()));
    let mut registry = HotkeyManager::new(DigitKeycodes::windows());
    let mut tracker = LaunchTracker::new();

    assert_eq!(apply_follow_up(FollowUp::Nothing, &config, &mut registry, &mut tracker), None);
    assert_eq!(registry.binding(id(2)), None);

    assert_eq!(
        apply_follow_up(FollowUp::ReconcileHotkeys, &config, &mut registry, &mut tracker),
        None
    );
    assert!(registry.binding(id(2)).is_some());
    // The launch flag was not looked at: the next full reconciliation reports it.
    assert_eq!(
        apply_follow_up(FollowUp::ReconcileAll, &config, &mut registry, &mut tracker),
        Some(true)
    );
    assert_eq!(
        apply_follow_up(FollowUp::ReconcileAll, &config, &mut registry, &mut tracker),
        None
    );
}
