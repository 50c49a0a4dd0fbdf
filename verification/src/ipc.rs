//! The message protocol between the server and a configuration front-end:
//! the messages, their framing, and what the server answers to each request.

use crate::config::{lemma_empty_card_fits, Config, ConfigManager, ConfigView};
use crate::error::{ErrorView, NotecognitoError};
use crate::notecard::{content_too_long_message, valid_id, Notecard, NotecardView};
use crate::text::{i64_to_string, signed_decimal};
use vstd::prelude::*;
use vstd::string::StringExecFns;

verus! {

/// The loopback address the server listens on.
pub const IPC_HOST: &'static str = "127.0.0.1";

/// The port the server listens on.
pub const IPC_PORT: u16 = 7855;

/// The longest body that a receiver takes, in bytes.
pub const MAX_MESSAGE_SIZE: usize = 1048576;

/// What a message asks or answers.
#[derive(Debug, PartialEq, Eq)]
pub enum IpcMessageType {
    /// Request for the current configuration.
    GetConfiguration,
    /// Request to replace one notecard.
    UpdateNotecard { notecard: Notecard },
    /// Request to replace the whole configuration.
    SaveConfiguration { config: Config },
    /// Answer that carries the configuration.
    ConfigurationResponse { config: Config },
    /// Answer to a request that was carried out.
    Success { message: String },
    /// Answer to a request that was refused or failed.
    Error { message: String },
}

/// The mathematical value of an [`IpcMessageType`].
pub enum IpcMessageTypeView {
    GetConfiguration,
    UpdateNotecard { notecard: NotecardView },
    SaveConfiguration { config: ConfigView },
    ConfigurationResponse { config: ConfigView },
    Success { message: Seq<char> },
    Error { message: Seq<char> },
}

impl View for IpcMessageType {
    type V = IpcMessageTypeView;

    open spec fn view(&self) -> IpcMessageTypeView {
        match *self {
            IpcMessageType::GetConfiguration => IpcMessageTypeView::GetConfiguration,
            IpcMessageType::UpdateNotecard { notecard } => IpcMessageTypeView::UpdateNotecard {
                notecard: notecard@,
            },
            IpcMessageType::SaveConfiguration { config } => IpcMessageTypeView::SaveConfiguration {
                config: config@,
            },
            IpcMessageType::ConfigurationResponse {
                config,
            } => IpcMessageTypeView::ConfigurationResponse { config: config@ },
            IpcMessageType::Success { message } => IpcMessageTypeView::Success {
                message: message@,
            },
            IpcMessageType::Error { message } => IpcMessageTypeView::Error { message: message@ },
        }
    }
}

impl Clone for IpcMessageType {
    fn clone(&self) -> (r: Self)
        ensures
            r@ == self@,
    {
        match self {
            IpcMessageType::GetConfiguration => IpcMessageType::GetConfiguration,
            IpcMessageType::UpdateNotecard { notecard } => IpcMessageType::UpdateNotecard {
                notecard: notecard.clone(),
            },
            IpcMessageType::SaveConfiguration { config } => IpcMessageType::SaveConfiguration {
                config: config.clone(),
            },
            IpcMessageType::ConfigurationResponse {
                config,
            } => IpcMessageType::ConfigurationResponse { config: config.clone() },
            IpcMessageType::Success { message } => IpcMessageType::Success {
                message: message.clone(),
            },
            IpcMessageType::Error { message } => IpcMessageType::Error { message: message.clone() },
        }
    }
}

/// A message: the correlation id its sender chose, and what it asks or answers.
#[derive(Debug, PartialEq, Eq)]
pub struct IpcMessage {
    /// Chosen by the client and echoed by the server.
    pub id: String,
    /// The request or the answer.
    pub message_type: IpcMessageType,
}

/// The mathematical value of an [`IpcMessage`].
pub struct IpcMessageView {
    pub id: Seq<char>,
    pub message_type: IpcMessageTypeView,
}

impl View for IpcMessage {
    type V = IpcMessageView;

    open spec fn view(&self) -> IpcMessageView {
        IpcMessageView { id: self.id@, message_type: self.message_type@ }
    }
}

impl Clone for IpcMessage {
    fn clone(&self) -> (r: Self)
        ensures
            r@ == self@,
    {
        IpcMessage { id: self.id.clone(), message_type: self.message_type.clone() }
    }
}

/// Reads the clock: the milliseconds since 1970.
///
/// The time of `SystemTime::now` goes through chrono: `DateTime::from_timestamp`
/// makes the moment, `DateTime::timestamp_millis` counts its milliseconds. A
/// clock set before 1970, or to a moment that chrono cannot represent, gives
/// 0. What comes back differs from call to call, so nothing is claimed of it.
#[verifier::external_body]
fn clock_millis() -> i64 {
    let now = std::time::SystemTime::now().duration_since(
        std::time::UNIX_EPOCH,
    ).unwrap_or_default();
    let time = chrono::DateTime::<chrono::Utc>::from_timestamp(
        now.as_secs() as i64,
        now.subsec_nanos(),
    ).unwrap_or_default();
    time.timestamp_millis()
}

impl IpcMessage {
    /// A message with a fresh correlation id: a number of milliseconds, taken
    /// from the clock, in decimal. The id serves the logs only; two messages
    /// may get the same.
    pub fn new(message_type: IpcMessageType) -> (r: Self)
        ensures
            r.message_type == message_type,
            exists|millis: i64| r.id@ == #[trigger] signed_decimal(millis as int),
    {
        IpcMessage { id: i64_to_string(clock_millis()), message_type }
    }

    /// A message with the given correlation id.
    pub fn with_id(id: String, message_type: IpcMessageType) -> (r: Self)
        ensures
            r.id == id,
            r.message_type == message_type,
    {
        IpcMessage { id, message_type }
    }
}

/// The four bytes of a length prefix: `n`, least significant byte first.
pub open spec fn le_bytes(n: nat) -> Seq<u8> {
    seq![
        (n % 256) as u8,
        ((n / 256) % 256) as u8,
        ((n / 65536) % 256) as u8,
        ((n / 16777216) % 256) as u8,
    ]
}

/// The number that a length prefix of four bytes denotes.
pub open spec fn le_value(bytes: Seq<u8>) -> nat {
    (bytes[0] + bytes[1] * 256 + bytes[2] * 65536 + bytes[3] * 16777216) as nat
}

/// A body as it travels: its length in four bytes, then the body.
pub open spec fn framed(body: Seq<u8>) -> Seq<u8> {
    le_bytes(body.len()) + body
}

/// The length of the body that a length prefix announces. A length above
/// [`MAX_MESSAGE_SIZE`] is a framing violation.
pub fn frame_length(header: &[u8; 4]) -> (r: Result<usize, NotecognitoError>)
    ensures
        match r {
            Ok(n) => n == le_value(header@) && n <= MAX_MESSAGE_SIZE,
            Err(e) => le_value(header@) > MAX_MESSAGE_SIZE && e@ == ErrorView::InvalidMessage,
        },
{
    let n: u32 = header[0] as u32 + header[1] as u32 * 256 + header[2] as u32 * 65536
        + header[3] as u32 * 16777216;
    if n > MAX_MESSAGE_SIZE as u32 {
        Err(NotecognitoError::InvalidMessage)
    } else {
        Ok(n as usize)
    }
}

/// The length prefix for a body of `len` bytes. Only a length that four
/// bytes cannot hold has none. The sender does not look at
/// [`MAX_MESSAGE_SIZE`]: whether a body is too long is for the receiver to
/// say.
pub fn frame_header(len: usize) -> (r: Result<[u8; 4], NotecognitoError>)
    ensures
        match r {
            Ok(header) => len <= u32::MAX && header@ == le_bytes(len as nat),
            Err(e) => len > u32::MAX && e@ == ErrorView::InvalidMessage,
        },
{
    if len > u32::MAX as usize {
        return Err(NotecognitoError::InvalidMessage);
    }
    let header: [u8; 4] = [
        (len % 256) as u8,
        ((len / 256) % 256) as u8,
        ((len / 65536) % 256) as u8,
        ((len / 16777216) % 256) as u8,
    ];
    Ok(header)
}

/// Frames a body for the wire. Only a body whose length four bytes cannot
/// hold is not framed.
pub fn frame_message(body: &[u8]) -> (r: Result<Vec<u8>, NotecognitoError>)
    ensures
        match r {
            Ok(frame) => body@.len() <= u32::MAX && frame@ == framed(body@),
            Err(e) => body@.len() > u32::MAX && e@ == ErrorView::InvalidMessage,
        },
{
    let header = match frame_header(body.len()) {
        Ok(header) => header,
        Err(e) => {
            return Err(e);
        },
    };
    let mut frame: Vec<u8> = Vec::new();
    frame.push(header[0]);
    frame.push(header[1]);
    frame.push(header[2]);
    frame.push(header[3]);
    let mut i: usize = 0;
    while i < body.len()
        invariant
            i <= body.len(),
            frame@ == le_bytes(body@.len()) + body@.subrange(0, i as int),
        decreases body.len() - i,
    {
        frame.push(body[i]);
        i = i + 1;
    }
    Ok(frame)
}

/// A length prefix denotes the length it was made for.
pub proof fn lemma_length_prefix_round_trip(n: nat)
    requires
        n < 0x1_0000_0000,
    ensures
        le_bytes(n).len() == 4,
        le_value(le_bytes(n)) == n,
{
}

/// A receiver recovers from a frame the length of the body, and then the
/// body: the prefix of `framed(body)` announces `body.len()`, and what follows
/// the prefix is `body`. The receiver takes the frame if the body has at most
/// [`MAX_MESSAGE_SIZE`] bytes.
pub proof fn lemma_frame_round_trip(body: Seq<u8>)
    requires
        body.len() <= u32::MAX,
    ensures
        framed(body).len() == 4 + body.len(),
        le_value(framed(body).subrange(0, 4)) == body.len(),
        framed(body).subrange(4, framed(body).len() as int) == body,
{
    lemma_length_prefix_round_trip(body.len());
}

/// Which kind of write a request made to the store.
#[derive(Debug, Clone, Copy, PartialEq, Eq, Structural)]
pub enum WriteKind {
    /// One notecard was replaced.
    Notecard,
    /// The whole configuration was replaced.
    Configuration,
}

/// What has to follow a request once its answer is known.
#[derive(Debug, Clone, Copy, PartialEq, Eq, Structural)]
pub enum FollowUp {
    /// Nothing.
    Nothing,
    /// The hotkey registry is aligned with the stored configuration.
    ReconcileHotkeys,
    /// The hotkey registry and the launch at login are aligned with the
    /// stored configuration.
    ReconcileAll,
}

/// A write that the store has taken and that is not yet on disk.
#[derive(Debug, PartialEq, Eq)]
pub struct PendingWrite {
    /// The correlation id of the request.
    pub id: String,
    /// What the request wrote.
    pub kind: WriteKind,
}

/// The mathematical value of a [`PendingWrite`].
pub struct PendingWriteView {
    pub id: Seq<char>,
    pub kind: WriteKind,
}

impl View for PendingWrite {
    type V = PendingWriteView;

    open spec fn view(&self) -> PendingWriteView {
        PendingWriteView { id: self.id@, kind: self.kind }
    }
}

/// Where a request stands after the store has seen it.
#[derive(Debug, PartialEq, Eq)]
pub enum RequestOutcome {
    /// The answer is ready.
    Reply(IpcMessage),
    /// The store has changed; the answer depends on whether the
    /// configuration can be saved.
    Persist(PendingWrite),
}

/// The mathematical value of a [`RequestOutcome`].
pub enum RequestOutcomeView {
    Reply(IpcMessageView),
    Persist(PendingWriteView),
}

impl View for RequestOutcome {
    type V = RequestOutcomeView;

    open spec fn view(&self) -> RequestOutcomeView {
        match *self {
            RequestOutcome::Reply(m) => RequestOutcomeView::Reply(m@),
            RequestOutcome::Persist(p) => RequestOutcomeView::Persist(p@),
        }
    }
}

/// The answer to a request that is refused because a notecard is too long.
pub open spec fn too_long_reply(id: Seq<char>) -> IpcMessageView {
    IpcMessageView {
        id,
        message_type: IpcMessageTypeView::Error {
            message: ErrorView::Config(content_too_long_message()).message(),
        },
    }
}

/// What the server does with a request: the configuration of the store
/// afterwards, and where the request stands.
///
/// A request for the configuration is answered with the configuration and
/// changes nothing. A request to write is refused, with nothing changed, if a
/// notecard is too long; else the store takes it and the write is pending. A
/// message that only a server sends is answered with an error.
pub open spec fn processed(store: ConfigView, message: IpcMessageView) -> (
    ConfigView,
    RequestOutcomeView,
) {
    match message.message_type {
        IpcMessageTypeView::GetConfiguration => (
            store,
            RequestOutcomeView::Reply(
                IpcMessageView {
                    id: message.id,
                    message_type: IpcMessageTypeView::ConfigurationResponse { config: store },
                },
            ),
        ),
        IpcMessageTypeView::UpdateNotecard { notecard } => if notecard.fits() {
            (
                store.put(notecard),
                RequestOutcomeView::Persist(
                    PendingWriteView { id: message.id, kind: WriteKind::Notecard },
                ),
            )
        } else {
            (store, RequestOutcomeView::Reply(too_long_reply(message.id)))
        },
        IpcMessageTypeView::SaveConfiguration { config } => if config.cards_fit() {
            (
                config.normalized(),
                RequestOutcomeView::Persist(
                    PendingWriteView { id: message.id, kind: WriteKind::Configuration },
                ),
            )
        } else {
            (store, RequestOutcomeView::Reply(too_long_reply(message.id)))
        },
        _ => (
            store,
            RequestOutcomeView::Reply(
                IpcMessageView {
                    id: message.id,
                    message_type: IpcMessageTypeView::Error { message: "Invalid message type"@ },
                },
            ),
        ),
    }
}

/// The answer to a pending write once the outcome of saving is known, and
/// what has to follow: success and a reconciliation if the configuration was
/// saved, else the error as text and nothing.
pub open spec fn completed(pending: PendingWriteView, saved: Result<(), ErrorView>) -> (
    IpcMessageView,
    FollowUp,
) {
    match saved {
        Ok(()) => match pending.kind {
            WriteKind::Notecard => (
                IpcMessageView {
                    id: pending.id,
                    message_type: IpcMessageTypeView::Success {
                        message: "Notecard updated successfully"@,
                    },
                },
                FollowUp::ReconcileHotkeys,
            ),
            WriteKind::Configuration => (
                IpcMessageView {
                    id: pending.id,
                    message_type: IpcMessageTypeView::Success {
                        message: "Configuration saved successfully"@,
                    },
                },
                FollowUp::ReconcileAll,
            ),
        },
        Err(e) => (
            IpcMessageView {
                id: pending.id,
                message_type: IpcMessageTypeView::Error { message: e.message() },
            },
            FollowUp::Nothing,
        ),
    }
}

/// An error as the answer to the request `id`.
fn error_reply(id: String, error: &NotecognitoError) -> (r: IpcMessage)
    ensures
        r@ == (IpcMessageView {
            id: id@,
            message_type: IpcMessageTypeView::Error { message: error@.message() },
        }),
{
    IpcMessage::with_id(id, IpcMessageType::Error { message: error.to_string() })
}

/// Lets the store see a request. The configuration is not saved here: where
/// the outcome is a pending write, the caller saves the configuration and
/// hands the result to [`complete_write`].
pub fn process_message(message: IpcMessage, manager: &mut ConfigManager) -> (r: RequestOutcome)
    ensures
        final(manager).path() == old(manager).path(),
        final(manager)@.well_formed(),
        (final(manager)@, r@) == processed(old(manager)@, message@),
{
    proof {
        use_type_invariant(&*manager);
    }
    let IpcMessage { id, message_type } = message;
    match message_type {
        IpcMessageType::GetConfiguration => {
            let config = manager.snapshot();
            RequestOutcome::Reply(
                IpcMessage::with_id(id, IpcMessageType::ConfigurationResponse { config }),
            )
        },
        IpcMessageType::UpdateNotecard { notecard } => {
            match manager.update_notecard(notecard) {
                Ok(()) => RequestOutcome::Persist(PendingWrite { id, kind: WriteKind::Notecard }),
                Err(e) => RequestOutcome::Reply(error_reply(id, &e)),
            }
        },
        IpcMessageType::SaveConfiguration { config } => {
            match manager.replace_all(config) {
                Ok(()) => RequestOutcome::Persist(
                    PendingWrite { id, kind: WriteKind::Configuration },
                ),
                Err(e) => RequestOutcome::Reply(error_reply(id, &e)),
            }
        },
        _ => {
            RequestOutcome::Reply(
                IpcMessage::with_id(
                    id,
                    IpcMessageType::Error { message: String::from_str("Invalid message type") },
                ),
            )
        },
    }
}

/// Answers a pending write, given whether the configuration was saved.
pub fn complete_write(pending: PendingWrite, saved: Result<(), NotecognitoError>) -> (r: (
    IpcMessage,
    FollowUp,
))
    ensures
        (r.0@, r.1) == completed(
            pending@,
            match saved {
                Ok(()) => Ok(()),
                Err(e) => Err(e@),
            },
        ),
{
    let PendingWrite { id, kind } = pending;
    match saved {
        Ok(()) => match kind {
            WriteKind::Notecard => (
                IpcMessage::with_id(
                    id,
                    IpcMessageType::Success {
                        message: String::from_str("Notecard updated successfully"),
                    },
                ),
                FollowUp::ReconcileHotkeys,
            ),
            WriteKind::Configuration => (
                IpcMessage::with_id(
                    id,
                    IpcMessageType::Success {
                        message: String::from_str("Configuration saved successfully"),
                    },
                ),
                FollowUp::ReconcileAll,
            ),
        },
        Err(e) => (error_reply(id, &e), FollowUp::Nothing),
    }
}

/// Every answer of the server carries the correlation id of the request,
/// whether the request is answered at once or after the configuration was
/// saved or could not be saved.
pub proof fn lemma_response_echoes_id(
    store: ConfigView,
    message: IpcMessageView,
    saved: Result<(), ErrorView>,
)
    ensures
        match processed(store, message).1 {
            RequestOutcomeView::Reply(reply) => reply.id == message.id,
            RequestOutcomeView::Persist(pending) => pending.id == message.id && completed(
                pending,
                saved,
            ).0.id == message.id,
        },
{
}

/// A client that updates a notecard, is told of success, and then asks for
/// the configuration finds the notecard in it, under the identifier of the
/// notecard and as it was sent.
pub proof fn lemma_update_then_get(
    store: ConfigView,
    update_id: Seq<char>,
    notecard: NotecardView,
    get_id: Seq<char>,
)
    requires
        processed(
            store,
            IpcMessageView {
                id: update_id,
                message_type: IpcMessageTypeView::UpdateNotecard { notecard },
            },
        ).1 matches RequestOutcomeView::Persist(pending) && completed(
            pending,
            Ok(()),
        ).0.message_type is Success,
    ensures
        ({
            let after = processed(
                store,
                IpcMessageView {
                    id: update_id,
                    message_type: IpcMessageTypeView::UpdateNotecard { notecard },
                },
            ).0;
            let answer = processed(
                after,
                IpcMessageView { id: get_id, message_type: IpcMessageTypeView::GetConfiguration },
            );
            &&& answer.0 == after
            &&& answer.1 matches RequestOutcomeView::Reply(reply)
            &&& reply.id == get_id
            &&& reply.message_type matches IpcMessageTypeView::ConfigurationResponse { config }
            &&& config.notecards.contains_key(notecard.id)
            &&& config.notecards[notecard.id] == notecard
        }),
{
}

/// A request that is refused leaves the store as it was, and so does a
/// request for the configuration.
pub proof fn lemma_reply_leaves_store(store: ConfigView, message: IpcMessageView)
    requires
        processed(store, message).1 is Reply,
    ensures
        processed(store, message).0 == store,
{
}

/// Whatever the request, a store that is well formed stays so. The
/// notecards of the request have identifiers, as all notecards in memory.
pub proof fn lemma_processed_well_formed(store: ConfigView, message: IpcMessageView)
    requires
        store.well_formed(),
        message.message_type matches IpcMessageTypeView::UpdateNotecard { notecard } ==> valid_id(
            notecard.id,
        ),
        message.message_type matches IpcMessageTypeView::SaveConfiguration { config }
            ==> config.ids_valid(),
    ensures
        processed(store, message).0.well_formed(),
{
    match message.message_type {
        IpcMessageTypeView::SaveConfiguration { config } => {
            assert forall|k: u8| valid_id(k) implies NotecardView::empty(k).fits() by {
                lemma_empty_card_fits(k);
            }
        },
        _ => {},
    }
}

/// The text of the error a client reports for an answer that is neither
/// what it asked for nor an error.
pub open spec fn unexpected_response_message() -> Seq<char> {
    "Unexpected response type"@
}

/// The text of the error a client reports for an error of the server.
pub open spec fn server_error_message(message: Seq<char>) -> Seq<char> {
    "Server error: "@ + message
}

/// What a client that asked for the configuration makes of the answer.
pub open spec fn expected_configuration(response: IpcMessageView) -> Result<ConfigView, ErrorView> {
    match response.message_type {
        IpcMessageTypeView::ConfigurationResponse { config } => Ok(config),
        IpcMessageTypeView::Error { message } => Err(
            ErrorView::Ipc(server_error_message(message)),
        ),
        _ => Err(ErrorView::Ipc(unexpected_response_message())),
    }
}

/// What a client that asked for a write makes of the answer.
pub open spec fn expected_success(response: IpcMessageView) -> Result<(), ErrorView> {
    match response.message_type {
        IpcMessageTypeView::Success { message } => Ok(()),
        IpcMessageTypeView::Error { message } => Err(
            ErrorView::Ipc(server_error_message(message)),
        ),
        _ => Err(ErrorView::Ipc(unexpected_response_message())),
    }
}

/// The error for an error of the server.
fn server_error(message: &str) -> (e: NotecognitoError)
    ensures
        e@ == ErrorView::Ipc(server_error_message(message@)),
{
    NotecognitoError::Ipc(String::from_str("Server error: ").concat(message))
}

/// The error for an answer of an unexpected kind.
fn unexpected_response() -> (e: NotecognitoError)
    ensures
        e@ == ErrorView::Ipc(unexpected_response_message()),
{
    NotecognitoError::Ipc(String::from_str("Unexpected response type"))
}

/// Takes the configuration out of the answer to a request for it. An error
/// of the server and an answer of any other kind become an error.
pub fn expect_configuration(response: IpcMessage) -> (r: Result<Config, NotecognitoError>)
    ensures
        match r {
            Ok(config) => expected_configuration(response@) == Ok::<ConfigView, ErrorView>(
                config@,
            ),
            Err(e) => expected_configuration(response@) == Err::<ConfigView, ErrorView>(e@),
        },
{
    match response.message_type {
        IpcMessageType::ConfigurationResponse { config } => Ok(config),
        IpcMessageType::Error { message } => Err(server_error(message.as_str())),
        _ => Err(unexpected_response()),
    }
}

/// Reads the answer to a request to write: success, or as an error the error
/// of the server or an answer of any other kind.
pub fn expect_success(response: IpcMessage) -> (r: Result<(), NotecognitoError>)
    ensures
        match r {
            Ok(()) => expected_success(response@) == Ok::<(), ErrorView>(()),
            Err(e) => expected_success(response@) == Err::<(), ErrorView>(e@),
        },
{
    match response.message_type {
        IpcMessageType::Success { message } => Ok(()),
        IpcMessageType::Error { message } => Err(server_error(message.as_str())),
        _ => Err(unexpected_response()),
    }
}

} // verus!
