//! What the supervisor decides: how the registry and the launch at login
//! follow the configuration, at startup and after each write.

use crate::config::{Config, ConfigView};
use crate::hotkey::{lemma_reconciled_hotkey_fires, reconciled_bindings, HotkeyManager};
use crate::ipc::{processed, FollowUp, IpcMessageTypeView, IpcMessageView};
use crate::notecard::{valid_id, NotecardView};
use crate::overlay::{hotkey_calls, show_calls, OverlayCallView};
use crate::platform::HotkeyModifier;
use vstd::prelude::*;

verus! {

/// The launch flag that the supervisor saw last. The platform is told of the
/// flag only when it differs from the one seen last.
#[derive(Debug, Clone, Copy, PartialEq, Eq)]
pub struct LaunchTracker {
    last: bool,
}

impl LaunchTracker {
    /// The flag seen last.
    pub closed spec fn last(&self) -> bool {
        self.last
    }

    /// What the platform has to be told when the flag `wanted` is seen after
    /// the flag `last`.
    pub open spec fn change(last: bool, wanted: bool) -> Option<bool> {
        if wanted != last {
            Some(wanted)
        } else {
            None
        }
    }

    /// A tracker that has seen the flag off, as it is before the application
    /// was ever registered to start at login.
    pub fn new() -> (r: Self)
        ensures
            !r.last(),
    {
        LaunchTracker { last: false }
    }

    /// Sees the flag of a configuration. The result is what the platform has
    /// to be told: the flag if it has changed, nothing if it has not.
    pub fn observe(&mut self, wanted: bool) -> (r: Option<bool>)
        ensures
            final(self).last() == wanted,
            r == Self::change(old(self).last(), wanted),
    {
        let changed = wanted != self.last;
        self.last = wanted;
        if changed {
            Some(wanted)
        } else {
            None
        }
    }
}

/// The bindings after a follow-up on the configuration `config`.
pub open spec fn followed_bindings(
    follow_up: FollowUp,
    config: ConfigView,
    bindings: Map<u8, Seq<HotkeyModifier>>,
) -> Map<u8, Seq<HotkeyModifier>> {
    match follow_up {
        FollowUp::Nothing => bindings,
        _ => reconciled_bindings(config),
    }
}

/// Carries out what follows a request: after the write of a notecard the
/// registry is aligned with the configuration; after the write of a
/// configuration the launch flag is seen as well. The result is what the
/// platform has to be told of the launch at login, if anything.
pub fn apply_follow_up(
    follow_up: FollowUp,
    config: &Config,
    registry: &mut HotkeyManager,
    tracker: &mut LaunchTracker,
) -> (r: Option<bool>)
    ensures
        final(registry).well_formed(),
        final(registry).layout() == old(registry).layout(),
        final(registry)@ == followed_bindings(follow_up, config@, old(registry)@),
        match follow_up {
            FollowUp::ReconcileAll => final(tracker).last() == config@.launch_on_startup && r
                == LaunchTracker::change(old(tracker).last(), config@.launch_on_startup),
            _ => final(tracker).last() == old(tracker).last() && r is None,
        },
{
    proof {
        use_type_invariant(&*registry);
    }
    match follow_up {
        FollowUp::Nothing => None,
        FollowUp::ReconcileHotkeys => {
            registry.reconcile(config);
            None
        },
        FollowUp::ReconcileAll => {
            registry.reconcile(config);
            tracker.observe(config.launch_on_startup)
        },
    }
}

/// Seeds the registry and the launch at login from the configuration that
/// was loaded at startup.
pub fn startup(config: &Config, registry: &mut HotkeyManager, tracker: &mut LaunchTracker) -> (r:
    Option<bool>)
    ensures
        final(registry).well_formed(),
        final(registry).layout() == old(registry).layout(),
        final(registry)@ == reconciled_bindings(config@),
        final(tracker).last() == config@.launch_on_startup,
        r == LaunchTracker::change(old(tracker).last(), config@.launch_on_startup),
{
    apply_follow_up(FollowUp::ReconcileAll, config, registry, tracker)
}

/// Once the server has taken the update of a notecard and the registry has
/// followed the store, the hotkey of the notecard does what the new content
/// asks for. With content, the modifiers of the configuration and the key of
/// the digit summon the notecard, and the sink is asked to dismiss and then
/// to show the new content with the default properties. Without content,
/// they summon nothing, and a hotkey for the notecard asks nothing of the
/// sink.
pub proof fn lemma_updated_notecard_follows(
    store: ConfigView,
    registry: HotkeyManager,
    request: IpcMessageView,
    notecard: NotecardView,
)
    requires
        valid_id(notecard.id),
        notecard.fits(),
        request.message_type == (IpcMessageTypeView::UpdateNotecard { notecard }),
        registry.well_formed(),
        registry@ == reconciled_bindings(processed(store, request).0),
    ensures
        ({
            let after = processed(store, request).0;
            let keycode = registry.layout().keycode(notecard.id);
            if notecard.is_empty() {
                &&& registry.matched(after.hotkey_modifiers, keycode) is None
                &&& hotkey_calls(after, notecard.id) == Seq::<OverlayCallView>::empty()
            } else {
                &&& registry.matched(after.hotkey_modifiers, keycode) == Some(notecard.id)
                &&& hotkey_calls(after, notecard.id) == show_calls(
                    notecard.id,
                    notecard.content,
                    store.default_display_properties,
                )
            }
        }),
{
    let after = processed(store, request).0;
    lemma_reconciled_hotkey_fires(registry, after, notecard.id);
}

} // verus!
