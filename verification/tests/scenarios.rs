use notecognito_core::config::serialize_notecards;
use notecognito_core::ipc::{
    complete_write, expect_configuration, frame_length, process_message, FollowUp, RequestOutcome,
};
use notecognito_core::overlay::hotkey_plan;
use notecognito_core::supervisor::{apply_follow_up, startup};
use notecognito_core::{
    ConfigManager, DigitKeycodes, DisplayProperties, HotkeyManager, HotkeyModifier, IpcMessage,
    IpcMessageType, LaunchTracker, Notecard, NotecardId, NotecardWindowInfo, NotecognitoError,
    OverlayCall,
};

fn id(value: u8) -> NotecardId {
    NotecardId::new(value).unwrap()
}

/// A server without its sockets and files: the store, the registry and the
/// tracker, driven the way the server drives them.
struct Server {
    store: ConfigManager,
    registry: HotkeyManager,
    tracker: LaunchTracker,
    layout: DigitKeycodes,
}

impl Server {
    fn start() -> Server {
        let store = ConfigManager::with_path("config.json".to_string(), None).unwrap();
        let layout = DigitKeycodes::macos_ansi();
        let mut registry = HotkeyManager::new(layout);
        let mut tracker = LaunchTracker::new();
        startup(store.config(), &mut registry, &mut tracker);
        Server { store, registry, tracker, layout }
    }

    fn request(&mut self, id: &str, message_type: IpcMessageType) -> IpcMessage {
        let message = IpcMessage::with_id(id.to_string(), message_type);
        match process_message(message, &mut self.store) {
            RequestOutcome::Reply(answer) => answer,
            RequestOutcome::Persist(pending) => {
                let (answer, follow_up) = complete_write(pending, Ok(()));
                let config = self.store.snapshot();
                apply_follow_up(follow_up, &config, &mut self.registry, &mut self.tracker);
                assert_ne!(follow_up, FollowUp::Nothing);
                answer
            }
        }
    }

    fn keystroke(&self, modifiers: &[HotkeyModifier], digit: u8) -> Vec<OverlayCall> {
        match self.registry.check_hotkey(modifiers, self.layout.keycode_for(id(digit))) {
            Some(found) => hotkey_plan(&self.store, found),
            None => Vec::new(),
        }
    }
}

fn update(server: &mut Server, n: u8, content: &str) -> IpcMessage {
    server.request(
        "u",
        IpcMessageType::UpdateNotecard { notecard: Notecard::new(id(n), content.to_string()) },
    )
}

#[test]
fn fresh_install() {
    let mut server = Server::start();
    let answer = server.request("1", IpcMessageType::GetConfiguration);
    assert_eq!(answer.id, "1");
    let config = expect_configuration(answer).unwrap();
    let entries = serialize_notecards(&config.notecards);
    let keys: Vec<&str> = entries.iter().map(|e| e.0.as_str()).collect();
    assert_eq!(keys, vec!["1", "2", "3", "4", "5", "6", "7", "8", "9"]);
    assert!(entries.iter().all(|e| e.1.content.is_empty()));
    assert_eq!(config.hotkey_modifiers, vec![HotkeyModifier::Control, HotkeyModifier::Shift]);
    assert!(!config.launch_on_startup);
}

#[test]
fn update_one_notecard() {
    let mut server = Server::start();
    let answer = update(&mut server, 3, "hello");
    assert!(matches!(answer.message_type, IpcMessageType::Success { .. }));
    let config = expect_configuration(server.request("2", IpcMessageType::GetConfiguration)).unwrap();
    assert_eq!(config.notecards.get(&3).unwrap().content, "hello");
    let entries = serialize_notecards(&config.notecards);
    assert!(entries.contains(&("3".to_string(), Notecard::new(id(3), "hello".to_string()))));
}

#[test]
fn hotkey_fires() {
    let mut server = Server::start();
    update(&mut server, 3, "hello");
    let calls = server.keystroke(&[HotkeyModifier::Control, HotkeyModifier::Shift], 3);
    let shows: Vec<&OverlayCall> =
        calls.iter().filter(|c| matches!(c, OverlayCall::Show(..))).collect();
    assert_eq!(
        shows,
        vec![&OverlayCall::Show(NotecardWindowInfo {
            notecard_id: id(3),
            content: "hello".to_string(),
            properties: DisplayProperties::default()
        })]
    );
    assert_eq!(server.keystroke(&[HotkeyModifier::Control], 3), vec![]);
    assert_eq!(server.keystroke(&[HotkeyModifier::Control, HotkeyModifier::Shift], 4), vec![]);
}

#[test]
fn empty_content_filter() {
    let mut server = Server::start();
    update(&mut server, 3, "hello");
    update(&mut server, 3, "");
    assert_eq!(server.registry.binding(id(3)), None);
    assert_eq!(server.keystroke(&[HotkeyModifier::Control, HotkeyModifier::Shift], 3), vec![]);
    assert_eq!(hotkey_plan(&server.store, id(3)), vec![]);
}

#[test]
fn oversize_rejection() {
    let mut server = Server::start();
    update(&mut server, 1, "before");
    let answer = update(&mut server, 1, &"a".repeat(10_001));
    match answer.message_type {
        IpcMessageType::Error { message } => assert!(message.contains("maximum length")),
        other => panic!("unexpected answer {:?}", other),
    }
    let config = expect_configuration(server.request("2", IpcMessageType::GetConfiguration)).unwrap();
    assert_eq!(config.notecards.get(&1).unwrap().content, "before");
}

#[test]
fn framing_violation() {
    let mut server = Server::start();
    update(&mut server, 1, "before");
    let before = server.store.snapshot();
    assert_eq!(frame_length(&2_000_000u32.to_le_bytes()), Err(NotecognitoError::InvalidMessage));
    assert_eq!(server.store.snapshot(), before);
}

#[test]
fn saving_a_configuration_reports_the_launch_flag_once() {
    let mut server = Server::start();
    let mut config = server.store.snapshot();
    config.launch_on_startup = true;
    config.hotkey_modifiers = vec![HotkeyModifier::Alt];
    config.notecards.insert(5, Notecard::new(id(5), "five".to_string()));
    let answer = server.request("s", IpcMessageType::SaveConfiguration { config });
    assert!(matches!(answer.message_type, IpcMessageType::Success { .. }));
    assert_eq!(server.tracker.observe(true), None);
    assert_eq!(server.registry.binding(id(5)), Some(vec![HotkeyModifier::Alt]));
    assert_eq!(server.keystroke(&[HotkeyModifier::Alt], 5).len(), 2);
}
