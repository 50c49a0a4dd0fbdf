use notecognito_core::overlay::{hotkey_plan, platform_error, show_plan, HOTKEY_QUEUE_CAPACITY};
use notecognito_core::{
    show_notecard, ConfigManager, DisplayProperties, HotkeyModifier, Notecard, NotecardId,
    NotecardWindowInfo, NotecognitoError, OverlayCall, OverlayController, PlatformInterface,
};

fn id(value: u8) -> NotecardId {
    NotecardId::new(value).unwrap()
}

fn info(value: u8, content: &str) -> NotecardWindowInfo {
    NotecardWindowInfo {
        notecard_id: id(value),
        content: content.to_string(),
        properties: DisplayProperties::default(),
    }
}

/// A sink that records what it is asked and fails where it is told to.
struct Recorder {
    calls: Vec<String>,
    fail_hide: Option<NotecognitoError>,
    fail_show: Option<NotecognitoError>,
    fail_launch: Option<NotecognitoError>,
}

impl Recorder {
    fn new() -> Recorder {
        Recorder { calls: Vec::new(), fail_hide: None, fail_show: None, fail_launch: None }
    }
}

fn outcome(failure: &mut Option<NotecognitoError>) -> Result<(), NotecognitoError> {
    match failure.take() {
        Some(e) => Err(e),
        None => Ok(()),
    }
}

impl PlatformInterface for Recorder {
    fn register_hotkey(
        &mut self,
        id: NotecardId,
        modifiers: &[HotkeyModifier],
    ) -> Result<(), NotecognitoError> {
        self.calls.push(format!("register {} {:?}", id.value(), modifiers));
        Ok(())
    }

    fn unregister_hotkey(&mut self, id: NotecardId) -> Result<(), NotecognitoError> {
        self.calls.push(format!("unregister {}", id.value()));
        Ok(())
    }

    fn show_notecard(
        &mut self,
        id: NotecardId,
        content: &str,
        properties: &DisplayProperties,
    ) -> Result<(), NotecognitoError> {
        self.calls.push(format!("show {} {:?} opacity {}", id.value(), content, properties.opacity));
        outcome(&mut self.fail_show)
    }

    fn hide_notecard(&mut self, id: NotecardId) -> Result<(), NotecognitoError> {
        self.calls.push(format!("hide {}", id.value()));
        outcome(&mut self.fail_hide)
    }

    fn set_launch_on_startup(&mut self, enabled: bool) -> Result<(), NotecognitoError> {
        self.calls.push(format!("launch {}", enabled));
        outcome(&mut self.fail_launch)
    }

    fn initialize(&mut self) -> Result<(), NotecognitoError> {
        Ok(())
    }

    fn cleanup(&mut self) -> Result<(), NotecognitoError> {
        Ok(())
    }

    fn check_permissions(&self) -> Result<bool, NotecognitoError> {
        Ok(true)
    }

    fn request_permissions(&self) -> Result<(), NotecognitoError> {
        Ok(())
    }
}

#[test]
fn the_queue_holds_thirty_two_events() {
    assert_eq!(HOTKEY_QUEUE_CAPACITY, 32);
}

#[test]
fn showing_dismisses_first() {
    let properties = DisplayProperties::default();
    assert_eq!(
        show_plan(id(3), "hello", &properties),
        vec![OverlayCall::Hide(id(3)), OverlayCall::Show(info(3, "hello"))]
    );
}

#[test]
fn empty_content_is_only_dismissed() {
    assert_eq!(show_plan(id(3), "", &DisplayProperties::default()), vec![OverlayCall::Hide(id(3))]);
}

#[test]
fn a_hotkey_shows_the_notecard_with_the_default_properties() {
    let mut store = ConfigManager::with_path("p".to_string(), None).unwrap();
    store.update_notecard(Notecard::new(id(3), "hello".to_string())).unwrap();
    assert_eq!(
        hotkey_plan(&store, id(3)),
        vec![OverlayCall::Hide(id(3)), OverlayCall::Show(info(3, "hello"))]
    );
}

#[test]
fn a_hotkey_for_an_empty_notecard_does_nothing() {
    let store = ConfigManager::with_path("p".to_string(), None).unwrap();
    assert_eq!(hotkey_plan(&store, id(3)), vec![]);
}

#[test]
fn the_controller_hands_the_calls_to_the_sink_in_order() {
    let mut controller = OverlayController::new(Recorder::new());
    assert_eq!(controller.show(id(3), "hello", &DisplayProperties::default()), Ok(()));
    assert_eq!(controller.show(id(3), "again", &DisplayProperties::default()), Ok(()));
    assert_eq!(controller.window(id(3)), Some(&info(3, "again")));
    assert_eq!(controller.show(id(4), "", &DisplayProperties::default()), Ok(()));
    assert_eq!(controller.window(id(4)), None);
    assert_eq!(controller.dismiss(id(3)), Ok(()));
    assert_eq!(controller.window(id(3)), None);
    assert_eq!(
        controller.sink().calls,
        vec![
            "hide 3",
            "show 3 \"hello\" opacity 95",
            "hide 3",
            "show 3 \"again\" opacity 95",
            "hide 4",
            "hide 3"
        ]
    );
}

#[test]
fn a_failure_of_the_sink_is_a_platform_error_and_is_not_tried_again() {
    let mut sink = Recorder::new();
    sink.fail_show = Some(NotecognitoError::Io("no display".to_string()));
    let mut controller = OverlayController::new(sink);
    assert_eq!(
        controller.show(id(1), "text", &DisplayProperties::default()),
        Err(NotecognitoError::Platform("IO error: no display".to_string()))
    );
    assert_eq!(controller.sink().calls, vec!["hide 1", "show 1 \"text\" opacity 95"]);
    assert_eq!(controller.window(id(1)), None);
}

#[test]
fn a_failed_dismissal_stops_the_show() {
    let mut sink = Recorder::new();
    sink.fail_hide = Some(NotecognitoError::Platform("gone".to_string()));
    let mut controller = OverlayController::new(sink);
    assert_eq!(
        controller.show(id(1), "text", &DisplayProperties::default()),
        Err(NotecognitoError::Platform("gone".to_string()))
    );
    assert_eq!(controller.sink().calls, vec!["hide 1"]);
}

#[test]
fn a_failed_dismissal_leaves_what_the_controller_knows() {
    let mut controller = OverlayController::new(Recorder::new());
    controller.show(id(1), "text", &DisplayProperties::default()).unwrap();
    controller.sink_mut().fail_hide = Some(NotecognitoError::Platform("busy".to_string()));
    assert!(controller.dismiss(id(1)).is_err());
    assert_eq!(controller.window(id(1)), Some(&info(1, "text")));
    assert_eq!(controller.dismiss(id(1)), Ok(()));
    assert_eq!(controller.window(id(1)), None);
}

#[test]
fn a_failed_show_leaves_the_notecard_without_overlay() {
    let mut controller = OverlayController::new(Recorder::new());
    controller.show(id(1), "first", &DisplayProperties::default()).unwrap();
    controller.sink_mut().fail_show = Some(NotecognitoError::Platform("no".to_string()));
    assert!(controller.show(id(1), "second", &DisplayProperties::default()).is_err());
    assert_eq!(controller.window(id(1)), None);
}

#[test]
fn the_calls_are_made_in_order_until_one_fails() {
    let mut sink = Recorder::new();
    sink.fail_show = Some(NotecognitoError::Platform("no".to_string()));
    let mut controller = OverlayController::new(sink);
    let calls = vec![
        OverlayCall::Hide(id(1)),
        OverlayCall::Show(info(1, "one")),
        OverlayCall::Show(info(2, "two")),
    ];
    assert!(controller.perform_all(&calls).is_err());
    assert_eq!(controller.sink().calls, vec!["hide 1", "show 1 \"one\" opacity 95"]);
    assert_eq!(controller.perform_all(&calls), Ok(()));
    assert_eq!(controller.window(id(1)), Some(&info(1, "one")));
    assert_eq!(controller.window(id(2)), Some(&info(2, "two")));
    assert_eq!(controller.perform_all(&vec![]), Ok(()));
}

#[test]
fn the_launch_flag_goes_to_the_sink() {
    let mut sink = Recorder::new();
    sink.fail_launch = Some(NotecognitoError::PermissionDenied("login items".to_string()));
    let mut controller = OverlayController::new(sink);
    assert_eq!(
        controller.set_launch_on_startup(true),
        Err(NotecognitoError::Platform("Permission denied: login items".to_string()))
    );
    assert_eq!(controller.set_launch_on_startup(false), Ok(()));
    let sink = controller.into_sink();
    assert_eq!(sink.calls, vec!["launch true", "launch false"]);
}

#[test]
fn platform_errors_stay_and_others_are_carried_as_text() {
    assert_eq!(
        platform_error(NotecognitoError::Platform("p".to_string())),
        NotecognitoError::Platform("p".to_string())
    );
    assert_eq!(
        platform_error(NotecognitoError::ConnectionLost),
        NotecognitoError::Platform("Connection lost".to_string())
    );
    assert_eq!(
        platform_error(NotecognitoError::InvalidNotecardId(12)),
        NotecognitoError::Platform("Invalid notecard ID: 12".to_string())
    );
}

#[test]
fn a_hotkey_asks_the_sink_for_one_show_with_the_content_and_the_default_properties() {
    let mut store = ConfigManager::with_path("p".to_string(), None).unwrap();
    store.update_notecard(Notecard::new(id(3), "hello".to_string())).unwrap();
    let before = store.snapshot();
    let mut controller = OverlayController::new(Recorder::new());
    assert_eq!(show_notecard(id(3), &store, &mut controller), Ok(()));
    assert_eq!(controller.sink().calls, vec!["hide 3", "show 3 \"hello\" opacity 95"]);
    let shows = controller.sink().calls.iter().filter(|c| c.starts_with("show")).count();
    assert_eq!(shows, 1);
    assert_eq!(controller.window(id(3)), Some(&info(3, "hello")));
    assert_eq!(store.snapshot(), before);
}

#[test]
fn a_hotkey_for_a_cleared_notecard_asks_nothing_of_the_sink() {
    let mut store = ConfigManager::with_path("p".to_string(), None).unwrap();
    store.update_notecard(Notecard::new(id(3), "hello".to_string())).unwrap();
    store.update_notecard(Notecard::new(id(3), String::new())).unwrap();
    let before = store.snapshot();
    let mut sink = Recorder::new();
    // If the sink were asked, it would fail.
    sink.fail_hide = Some(NotecognitoError::Platform("asked".to_string()));
    sink.fail_show = Some(NotecognitoError::Platform("asked".to_string()));
    let mut controller = OverlayController::new(sink);
    assert_eq!(show_notecard(id(3), &store, &mut controller), Ok(()));
    assert!(controller.sink().calls.is_empty());
    assert_eq!(controller.window(id(3)), None);
    assert_eq!(store.snapshot(), before);
}

#[test]
fn a_hotkey_reports_the_failure_of_the_sink() {
    let mut store = ConfigManager::with_path("p".to_string(), None).unwrap();
    store.update_notecard(Notecard::new(id(1), "one".to_string())).unwrap();
    let mut sink = Recorder::new();
    sink.fail_show = Some(NotecognitoError::Io("no display".to_string()));
    let mut controller = OverlayController::new(sink);
    assert_eq!(
        show_notecard(id(1), &store, &mut controller),
        Err(NotecognitoError::Platform("IO error: no display".to_string()))
    );
    assert_eq!(controller.sink().calls, vec!["hide 1", "show 1 \"one\" opacity 95"]);
}
