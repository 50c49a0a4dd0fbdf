//! Control plane of a hotkey-driven notecard overlay: the configuration store,
//! the hotkey registry, the overlay controller and the framed message protocol
//! through which a configuration front-end talks to the server.
//!
//! - [`notecard`] and [`config`] hold the data model and the store that guards
//!   the one configuration of the process.
//! - [`json`] and [`codec`] give the configuration and the messages their JSON
//!   form, on JSON values; reading and writing JSON text is left to the caller.
//! - [`hotkey`] is the registry that turns key events into notecards.
//! - [`overlay`] decides what the overlay sink of the platform is asked.
//! - [`ipc`] frames the messages and says what the server answers.
//! - [`supervisor`] lets the registry and the launch at login follow the
//!   configuration.
//! - [`platform`] names what the operating system has to provide.
//!
//! Nothing here reads a file, a socket or the keyboard. The functions that
//! stand between such events take what was read and say what is to be done.

pub mod codec;
pub mod config;
pub mod error;
pub mod hotkey;
pub mod ipc;
pub mod json;
pub mod notecard;
pub mod overlay;
pub mod platform;
pub mod supervisor;
pub mod text;

pub use config::{Config, ConfigManager, DisplayProperties};
pub use error::NotecognitoError;
pub use hotkey::{DigitKeycodes, HotkeyManager, KeyEventDecision, RegistryState};
pub use ipc::{IpcMessage, IpcMessageType};
pub use json::JsonValue;
pub use notecard::{Notecard, NotecardId};
pub use overlay::{show_notecard, NotecardWindowInfo, OverlayCall, OverlayController};
pub use platform::{HotkeyModifier, Platform, PlatformInterface};
pub use supervisor::LaunchTracker;
