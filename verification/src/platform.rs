//! What the control plane asks of the operating system.

use crate::config::DisplayProperties;
use crate::error::NotecognitoError;
use crate::notecard::NotecardId;
use crate::text::same_text;
use vstd::prelude::*;

verus! {

/// A modifier key of a hotkey.
#[derive(Debug, Clone, Copy, PartialEq, Eq, Hash, Structural)]
pub enum HotkeyModifier {
    Control,
    Alt,
    Shift,
    /// The command key of macOS.
    Command,
    /// The Windows key, called super elsewhere.
    Super,
}

/// The name of a modifier in a serialized configuration.
pub open spec fn modifier_name(modifier: HotkeyModifier) -> Seq<char> {
    match modifier {
        HotkeyModifier::Control => "Control"@,
        HotkeyModifier::Alt => "Alt"@,
        HotkeyModifier::Shift => "Shift"@,
        HotkeyModifier::Command => "Command"@,
        HotkeyModifier::Super => "Super"@,
    }
}

/// The modifier that a name denotes. Every modifier is known by its name on
/// every platform; any other name denotes none.
pub open spec fn named_modifier(name: Seq<char>) -> Option<HotkeyModifier> {
    if name == "Control"@ {
        Some(HotkeyModifier::Control)
    } else if name == "Alt"@ {
        Some(HotkeyModifier::Alt)
    } else if name == "Shift"@ {
        Some(HotkeyModifier::Shift)
    } else if name == "Command"@ {
        Some(HotkeyModifier::Command)
    } else if name == "Super"@ {
        Some(HotkeyModifier::Super)
    } else {
        None
    }
}

/// The name of a modifier denotes that modifier.
pub proof fn lemma_modifier_name_round_trip(modifier: HotkeyModifier)
    ensures
        named_modifier(modifier_name(modifier)) == Some(modifier),
{
    reveal_strlit("Control");
    reveal_strlit("Alt");
    reveal_strlit("Shift");
    reveal_strlit("Command");
    reveal_strlit("Super");
    assert("Control"@[2] != "Command"@[2]);
    assert("Shift"@[1] != "Super"@[1]);
}

/// The operating systems the overlay runs on.
#[derive(Debug, Clone, Copy, PartialEq, Eq, Hash, Structural)]
pub enum Platform {
    MacOs,
    Windows,
    Linux,
    Unknown,
}

/// The short name of a platform.
pub open spec fn platform_name(platform: Platform) -> Seq<char> {
    match platform {
        Platform::MacOs => "macos"@,
        Platform::Windows => "win"@,
        Platform::Linux => "linux"@,
        Platform::Unknown => "unknown"@,
    }
}

/// How a modifier is labelled for the user of a platform.
pub open spec fn modifier_display_name(modifier: HotkeyModifier, platform: Platform) -> Seq<char> {
    match modifier {
        HotkeyModifier::Control => if platform == Platform::MacOs {
            "⌃ Control"@
        } else {
            "Ctrl"@
        },
        HotkeyModifier::Alt => if platform == Platform::MacOs {
            "⌥ Option"@
        } else {
            "Alt"@
        },
        HotkeyModifier::Shift => if platform == Platform::MacOs {
            "⇧ Shift"@
        } else {
            "Shift"@
        },
        HotkeyModifier::Command => "⌘ Command"@,
        HotkeyModifier::Super => "⊞ Win"@,
    }
}

impl Platform {
    /// The short name of the platform.
    pub fn name(&self) -> (s: &'static str)
        ensures
            s@ == platform_name(*self),
    {
        match self {
            Platform::MacOs => "macos",
            Platform::Windows => "win",
            Platform::Linux => "linux",
            Platform::Unknown => "unknown",
        }
    }
}

impl HotkeyModifier {
    /// The name of the modifier in a serialized configuration.
    pub fn name(&self) -> (s: &'static str)
        ensures
            s@ == modifier_name(*self),
    {
        match self {
            HotkeyModifier::Control => "Control",
            HotkeyModifier::Alt => "Alt",
            HotkeyModifier::Shift => "Shift",
            HotkeyModifier::Command => "Command",
            HotkeyModifier::Super => "Super",
        }
    }

    /// The modifier of the given name, if the name is that of a modifier.
    pub fn from_name(name: &str) -> (r: Option<HotkeyModifier>)
        ensures
            r == named_modifier(name@),
    {
        if same_text(name, "Control") {
            Some(HotkeyModifier::Control)
        } else if same_text(name, "Alt") {
            Some(HotkeyModifier::Alt)
        } else if same_text(name, "Shift") {
            Some(HotkeyModifier::Shift)
        } else if same_text(name, "Command") {
            Some(HotkeyModifier::Command)
        } else if same_text(name, "Super") {
            Some(HotkeyModifier::Super)
        } else {
            None
        }
    }

    /// The label of the modifier on the given platform.
    pub fn display_name(&self, platform: Platform) -> (s: &'static str)
        ensures
            s@ == modifier_display_name(*self, platform),
    {
        let macos = platform == Platform::MacOs;
        match self {
            HotkeyModifier::Control => if macos {
                "⌃ Control"
            } else {
                "Ctrl"
            },
            HotkeyModifier::Alt => if macos {
                "⌥ Option"
            } else {
                "Alt"
            },
            HotkeyModifier::Shift => if macos {
                "⇧ Shift"
            } else {
                "Shift"
            },
            HotkeyModifier::Command => "⌘ Command",
            HotkeyModifier::Super => "⊞ Win",
        }
    }
}

/// The services of the operating system, one implementation per platform.
///
/// Nothing is known of what an implementation returns: every caller in this
/// crate handles both outcomes of every method.
pub trait PlatformInterface: Send + Sync {
    /// Registers a global hotkey for a notecard.
    fn register_hotkey(&mut self, id: NotecardId, modifiers: &[HotkeyModifier]) -> Result<
        (),
        NotecognitoError,
    >;

    /// Unregisters the global hotkey of a notecard.
    fn unregister_hotkey(&mut self, id: NotecardId) -> Result<(), NotecognitoError>;

    /// Shows the overlay of a notecard, replacing one already shown.
    fn show_notecard(
        &mut self,
        id: NotecardId,
        content: &str,
        properties: &DisplayProperties,
    ) -> Result<(), NotecognitoError>;

    /// Dismisses the overlay of a notecard if there is one.
    fn hide_notecard(&mut self, id: NotecardId) -> Result<(), NotecognitoError>;

    /// Makes the application start, or no longer start, at login.
    fn set_launch_on_startup(&mut self, enabled: bool) -> Result<(), NotecognitoError>;

    /// Prepares the platform services.
    fn initialize(&mut self) -> Result<(), NotecognitoError>;

    /// Releases the platform services.
    fn cleanup(&mut self) -> Result<(), NotecognitoError>;

    /// Whether the permissions the hotkeys need are granted.
    fn check_permissions(&self) -> Result<bool, NotecognitoError>;

    /// Asks the user for the permissions the hotkeys need.
    fn request_permissions(&self) -> Result<(), NotecognitoError>;
}

} // verus!
