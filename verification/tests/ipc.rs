use notecognito_core::ipc::{
    complete_write, expect_configuration, expect_success, frame_header, frame_length,
    frame_message, process_message, FollowUp, PendingWrite, RequestOutcome, WriteKind, IPC_HOST,
    IPC_PORT, MAX_MESSAGE_SIZE,
};
use notecognito_core::{
    Config, ConfigManager, IpcMessage, IpcMessageType, Notecard, NotecardId, NotecognitoError,
};

fn id(value: u8) -> NotecardId {
    NotecardId::new(value).unwrap()
}

fn card(value: u8, content: &str) -> Notecard {
    Notecard::new(id(value), content.to_string())
}

fn fresh_store() -> ConfigManager {
    ConfigManager::with_path("config.json".to_string(), None).unwrap()
}

fn request(id: &str, message_type: IpcMessageType) -> IpcMessage {
    IpcMessage::with_id(id.to_string(), message_type)
}

#[test]
fn constants_are_the_documented_ones() {
    assert_eq!(IPC_HOST, "127.0.0.1");
    assert_eq!(IPC_PORT, 7855);
    assert_eq!(MAX_MESSAGE_SIZE, 1024 * 1024);
}

#[test]
fn with_id_keeps_what_it_is_given() {
    let m = IpcMessage::with_id("abc".to_string(), IpcMessageType::GetConfiguration);
    assert_eq!(m.id, "abc");
    assert_eq!(m.message_type, IpcMessageType::GetConfiguration);
}

#[test]
fn new_takes_its_id_from_the_clock() {
    let m = IpcMessage::new(IpcMessageType::Success { message: "ok".to_string() });
    assert_eq!(m.message_type, IpcMessageType::Success { message: "ok".to_string() });
    let millis: i64 = m.id.parse().unwrap();
    // Later than the first of January 2020.
    assert!(millis > 1_577_836_800_000);
    assert_eq!(m.id, millis.to_string());
}

#[test]
fn a_frame_is_the_length_then_the_body() {
    assert_eq!(frame_message(b"abc"), Ok(vec![3, 0, 0, 0, b'a', b'b', b'c']));
    assert_eq!(frame_message(b""), Ok(vec![0, 0, 0, 0]));
    let body = vec![7u8; 0x0001_0203];
    let frame = frame_message(&body).unwrap();
    assert_eq!(&frame[..4], &[0x03, 0x02, 0x01, 0x00]);
    assert_eq!(&frame[4..], &body[..]);
}

#[test]
fn the_header_is_little_endian() {
    for len in [0usize, 1, 255, 256, 65_535, 65_536, 1_000_000, MAX_MESSAGE_SIZE] {
        let header = frame_header(len).unwrap();
        assert_eq!(header, (len as u32).to_le_bytes());
        assert_eq!(frame_length(&header), Ok(len));
    }
}

#[test]
fn a_body_of_exactly_one_mebibyte_is_accepted() {
    let body = vec![b'x'; MAX_MESSAGE_SIZE];
    let frame = frame_message(&body).unwrap();
    assert_eq!(frame.len(), MAX_MESSAGE_SIZE + 4);
    assert_eq!(frame_length(&[0, 0, 16, 0]), Ok(MAX_MESSAGE_SIZE));
}

#[test]
fn a_body_of_one_mebibyte_and_one_byte_is_rejected() {
    // The sender frames it; the receiver refuses it when it reads the prefix.
    let body = vec![b'x'; MAX_MESSAGE_SIZE + 1];
    let frame = frame_message(&body).unwrap();
    assert_eq!(&frame[..4], &[1, 0, 16, 0]);
    assert_eq!(&frame[4..], &body[..]);
    let header = [frame[0], frame[1], frame[2], frame[3]];
    assert_eq!(frame_length(&header), Err(NotecognitoError::InvalidMessage));
    assert_eq!(frame_header(MAX_MESSAGE_SIZE + 1), Ok([1, 0, 16, 0]));
}

#[test]
fn the_sender_frames_whatever_the_prefix_can_hold() {
    assert_eq!(frame_header(2_000_000), Ok(2_000_000u32.to_le_bytes()));
    assert_eq!(frame_header(u32::MAX as usize), Ok([255, 255, 255, 255]));
    if let Some(too_long) = (u32::MAX as usize).checked_add(1) {
        assert_eq!(frame_header(too_long), Err(NotecognitoError::InvalidMessage));
    }
    let body = vec![7u8; 3_000_000];
    let frame = frame_message(&body).unwrap();
    assert_eq!(&frame[..4], &3_000_000u32.to_le_bytes());
    assert_eq!(frame.len(), 3_000_004);
}

#[test]
fn a_length_prefix_of_two_million_is_a_framing_violation() {
    let header = 2_000_000u32.to_le_bytes();
    assert_eq!(frame_length(&header), Err(NotecognitoError::InvalidMessage));
    assert_eq!(frame_length(&[255, 255, 255, 255]), Err(NotecognitoError::InvalidMessage));
}

#[test]
fn get_configuration_answers_with_a_snapshot_and_changes_nothing() {
    let mut store = fresh_store();
    store.update_notecard(card(2, "two")).unwrap();
    let before = store.snapshot();
    let outcome = process_message(request("41", IpcMessageType::GetConfiguration), &mut store);
    assert_eq!(
        outcome,
        RequestOutcome::Reply(request(
            "41",
            IpcMessageType::ConfigurationResponse { config: before.clone() }
        ))
    );
    assert_eq!(store.snapshot(), before);
}

#[test]
fn update_notecard_is_pending_until_saved() {
    let mut store = fresh_store();
    let outcome = process_message(
        request("42", IpcMessageType::UpdateNotecard { notecard: card(3, "hello") }),
        &mut store,
    );
    assert_eq!(
        outcome,
        RequestOutcome::Persist(PendingWrite { id: "42".to_string(), kind: WriteKind::Notecard })
    );
    assert_eq!(store.get_notecard(id(3)).unwrap(), &card(3, "hello"));
}

#[test]
fn save_configuration_is_pending_until_saved() {
    let mut store = fresh_store();
    let mut config = Config::default();
    config.launch_on_startup = true;
    config.notecards.remove(&8);
    config.notecards.insert(1, card(1, "one"));
    let outcome = process_message(
        request("43", IpcMessageType::SaveConfiguration { config: config.clone() }),
        &mut store,
    );
    assert_eq!(
        outcome,
        RequestOutcome::Persist(PendingWrite {
            id: "43".to_string(),
            kind: WriteKind::Configuration
        })
    );
    assert_eq!(store.snapshot(), config.normalize().unwrap());
    assert!(store.get_notecard(id(8)).unwrap().is_empty());
}

#[test]
fn an_oversized_notecard_is_answered_with_an_error() {
    let mut store = fresh_store();
    let before = store.snapshot();
    let outcome = process_message(
        request("44", IpcMessageType::UpdateNotecard { notecard: card(1, &"a".repeat(10_001)) }),
        &mut store,
    );
    match outcome {
        RequestOutcome::Reply(IpcMessage { id, message_type: IpcMessageType::Error { message } }) => {
            assert_eq!(id, "44");
            assert!(message.contains("maximum length"));
            assert_eq!(
                message,
                "Configuration error: Notecard content exceeds maximum length of 10000 characters"
            );
        }
        other => panic!("unexpected outcome {:?}", other),
    }
    assert_eq!(store.snapshot(), before);
}

#[test]
fn an_oversized_configuration_is_answered_with_an_error() {
    let mut store = fresh_store();
    let before = store.snapshot();
    let mut config = Config::default();
    config.notecards.insert(5, card(5, &"a".repeat(20_000)));
    let outcome =
        process_message(request("45", IpcMessageType::SaveConfiguration { config }), &mut store);
    assert!(matches!(
        outcome,
        RequestOutcome::Reply(IpcMessage { message_type: IpcMessageType::Error { .. }, .. })
    ));
    assert_eq!(store.snapshot(), before);
}

#[test]
fn a_message_that_only_a_server_sends_is_answered_with_an_error() {
    let mut store = fresh_store();
    let before = store.snapshot();
    let server_only = vec![
        IpcMessageType::ConfigurationResponse { config: Config::default() },
        IpcMessageType::Success { message: "m".to_string() },
        IpcMessageType::Error { message: "m".to_string() },
    ];
    for message_type in server_only {
        let outcome = process_message(request("46", message_type), &mut store);
        assert_eq!(
            outcome,
            RequestOutcome::Reply(request(
                "46",
                IpcMessageType::Error { message: "Invalid message type".to_string() }
            ))
        );
    }
    assert_eq!(store.snapshot(), before);
}

#[test]
fn every_answer_carries_the_id_of_the_request() {
    let requests = vec![
        IpcMessageType::GetConfiguration,
        IpcMessageType::UpdateNotecard { notecard: card(1, "x") },
        IpcMessageType::UpdateNotecard { notecard: card(1, &"x".repeat(10_001)) },
        IpcMessageType::SaveConfiguration { config: Config::default() },
        IpcMessageType::Success { message: "m".to_string() },
    ];
    for (n, message_type) in requests.into_iter().enumerate() {
        let wanted = format!("id-{}", n);
        let mut store = fresh_store();
        let answer = match process_message(request(&wanted, message_type), &mut store) {
            RequestOutcome::Reply(answer) => answer,
            RequestOutcome::Persist(pending) => {
                assert_eq!(pending.id, wanted);
                complete_write(pending, Ok(())).0
            }
        };
        assert_eq!(answer.id, wanted);
    }
}

#[test]
fn a_saved_write_is_answered_with_success() {
    let pending = PendingWrite { id: "7".to_string(), kind: WriteKind::Notecard };
    assert_eq!(
        complete_write(pending, Ok(())),
        (
            request("7", IpcMessageType::Success { message: "Notecard updated successfully".to_string() }),
            FollowUp::ReconcileHotkeys
        )
    );
    let pending = PendingWrite { id: "8".to_string(), kind: WriteKind::Configuration };
    assert_eq!(
        complete_write(pending, Ok(())),
        (
            request(
                "8",
                IpcMessageType::Success { message: "Configuration saved successfully".to_string() }
            ),
            FollowUp::ReconcileAll
        )
    );
}

#[test]
fn a_write_that_cannot_be_saved_is_answered_with_the_error() {
    let pending = PendingWrite { id: "9".to_string(), kind: WriteKind::Configuration };
    assert_eq!(
        complete_write(pending, Err(NotecognitoError::Io("disk full".to_string()))),
        (
            request("9", IpcMessageType::Error { message: "IO error: disk full".to_string() }),
            FollowUp::Nothing
        )
    );
}

#[test]
fn a_client_observes_its_own_write() {
    let mut store = fresh_store();
    let n = card(3, "hello");
    let pending = match process_message(
        request("1", IpcMessageType::UpdateNotecard { notecard: n.clone() }),
        &mut store,
    ) {
        RequestOutcome::Persist(pending) => pending,
        other => panic!("unexpected outcome {:?}", other),
    };
    let (answer, _) = complete_write(pending, Ok(()));
    assert_eq!(expect_success(answer), Ok(()));
    let answer = match process_message(request("2", IpcMessageType::GetConfiguration), &mut store) {
        RequestOutcome::Reply(answer) => answer,
        other => panic!("unexpected outcome {:?}", other),
    };
    let config = expect_configuration(answer).unwrap();
    assert_eq!(config.notecards.get(&3), Some(&n));
}

#[test]
fn a_client_reads_the_configuration_out_of_the_answer() {
    let mut config = Config::default();
    config.launch_on_startup = true;
    let answer = request("1", IpcMessageType::ConfigurationResponse { config: config.clone() });
    assert_eq!(expect_configuration(answer), Ok(config));
}

#[test]
fn a_client_reports_an_error_of_the_server() {
    let answer = request("1", IpcMessageType::Error { message: "no".to_string() });
    assert_eq!(
        expect_configuration(answer.clone()),
        Err(NotecognitoError::Ipc("Server error: no".to_string()))
    );
    assert_eq!(expect_success(answer), Err(NotecognitoError::Ipc("Server error: no".to_string())));
}

#[test]
fn a_client_reports_an_unexpected_answer() {
    let unexpected = NotecognitoError::Ipc("Unexpected response type".to_string());
    let success = request("1", IpcMessageType::Success { message: "ok".to_string() });
    assert_eq!(expect_configuration(success.clone()), Err(NotecognitoError::Ipc("Unexpected response type".to_string())));
    assert_eq!(expect_success(success), Ok(()));
    let get = request("1", IpcMessageType::GetConfiguration);
    assert_eq!(expect_configuration(get.clone()), Err(NotecognitoError::Ipc("Unexpected response type".to_string())));
    assert_eq!(expect_success(get), Err(unexpected));
    let response = request("1", IpcMessageType::ConfigurationResponse { config: Config::default() });
    assert!(expect_success(response).is_err());
}
