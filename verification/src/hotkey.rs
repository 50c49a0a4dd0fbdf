//! The registry of hotkeys: which modifier keys, together with which digit
//! key, summon which notecard.

use crate::config::{copy_modifiers, Config, ConfigView};
use crate::notecard::{valid_id, NotecardId};
use crate::platform::HotkeyModifier;
use std::collections::HashMap;
use vstd::prelude::*;

verus! {

broadcast use vstd::std_specs::hash::group_hash_axioms;

/// Whether two lists of modifiers denote the same set of keys.
pub open spec fn same_modifier_set(a: Seq<HotkeyModifier>, b: Seq<HotkeyModifier>) -> bool {
    a.to_set() == b.to_set()
}

/// Whether `needle` occurs in `modifiers`.
pub fn contains_modifier(modifiers: &[HotkeyModifier], needle: HotkeyModifier) -> (r: bool)
    ensures
        r == modifiers@.contains(needle),
{
    let mut i: usize = 0;
    while i < modifiers.len()
        invariant
            i <= modifiers.len(),
            forall|j: int| 0 <= j < i ==> modifiers@[j] != needle,
        decreases modifiers.len() - i,
    {
        if modifiers[i] == needle {
            return true;
        }
        i = i + 1;
    }
    false
}

/// Whether the keys that are pressed are exactly the keys that are required:
/// none missing and none besides. Order and repeats do not count.
pub fn check_modifiers(pressed: &[HotkeyModifier], required: &[HotkeyModifier]) -> (r: bool)
    ensures
        r == same_modifier_set(pressed@, required@),
{
    let control = contains_modifier(pressed, HotkeyModifier::Control) == contains_modifier(
        required,
        HotkeyModifier::Control,
    );
    let alt = contains_modifier(pressed, HotkeyModifier::Alt) == contains_modifier(
        required,
        HotkeyModifier::Alt,
    );
    let shift = contains_modifier(pressed, HotkeyModifier::Shift) == contains_modifier(
        required,
        HotkeyModifier::Shift,
    );
    let command = contains_modifier(pressed, HotkeyModifier::Command) == contains_modifier(
        required,
        HotkeyModifier::Command,
    );
    let super_key = contains_modifier(pressed, HotkeyModifier::Super) == contains_modifier(
        required,
        HotkeyModifier::Super,
    );
    let r = control && alt && shift && command && super_key;
    proof {
        let a = pressed@.to_set();
        let b = required@.to_set();
        if r {
            assert(a =~= b);
        } else {
            if !control {
                assert(a.contains(HotkeyModifier::Control) != b.contains(HotkeyModifier::Control));
            } else if !alt {
                assert(a.contains(HotkeyModifier::Alt) != b.contains(HotkeyModifier::Alt));
            } else if !shift {
                assert(a.contains(HotkeyModifier::Shift) != b.contains(HotkeyModifier::Shift));
            } else if !command {
                assert(a.contains(HotkeyModifier::Command) != b.contains(HotkeyModifier::Command));
            } else {
                assert(a.contains(HotkeyModifier::Super) != b.contains(HotkeyModifier::Super));
            }
        }
    }
    r
}

/// Whether the nine keycodes of a layout are pairwise distinct.
pub open spec fn distinct_keycodes(codes: Seq<i64>) -> bool {
    forall|i: int, j: int| 0 <= i < j < codes.len() ==> codes[i] != codes[j]
}

/// The keycode that each digit from 1 to 9 has on the keyboard in use. The
/// key hook of the platform provides it; no two digits share a keycode.
#[derive(Debug, Clone, Copy, PartialEq, Eq)]
pub struct DigitKeycodes {
    codes: [i64; 9],
}

impl DigitKeycodes {
    #[verifier::type_invariant]
    spec fn holds_invariants(self) -> bool {
        self.well_formed()
    }

    /// No two digits share a keycode.
    pub closed spec fn well_formed(&self) -> bool {
        distinct_keycodes(self.codes@)
    }

    /// The keycode of the digit of notecard `id`.
    pub closed spec fn keycode(&self, id: u8) -> i64 {
        self.codes@[id - 1]
    }

    /// The layout with `codes[0]` for the digit 1 up to `codes[8]` for the
    /// digit 9; none where two digits would share a keycode.
    pub fn new(codes: [i64; 9]) -> (r: Option<Self>)
        ensures
            match r {
                Some(layout) => distinct_keycodes(codes@) && layout.well_formed() && forall|id: u8|
                    valid_id(id) ==> #[trigger] layout.keycode(id) == codes@[id - 1],
                None => !distinct_keycodes(codes@),
            },
    {
        let mut j: usize = 1;
        while j < 9
            invariant
                1 <= j <= 9,
                forall|a: int, b: int| 0 <= a < b < j ==> codes@[a] != codes@[b],
            decreases 9 - j,
        {
            let mut i: usize = 0;
            while i < j
                invariant
                    1 <= j < 9,
                    i <= j,
                    forall|a: int, b: int| 0 <= a < b < j ==> codes@[a] != codes@[b],
                    forall|a: int| 0 <= a < i ==> codes@[a] != codes@[j as int],
                decreases j - i,
            {
                if codes[i] == codes[j] {
                    return None;
                }
                i = i + 1;
            }
            j = j + 1;
        }
        Some(DigitKeycodes { codes })
    }

    /// The digit row of an ANSI keyboard as macOS numbers its keys.
    pub fn macos_ansi() -> (r: Self)
        ensures
            r.well_formed(),
            r.keycode(1) == 18,
            r.keycode(2) == 19,
            r.keycode(3) == 20,
            r.keycode(4) == 21,
            r.keycode(5) == 23,
            r.keycode(6) == 22,
            r.keycode(7) == 26,
            r.keycode(8) == 28,
            r.keycode(9) == 25,
    {
        DigitKeycodes { codes: [18, 19, 20, 21, 23, 22, 26, 28, 25] }
    }

    /// The virtual-key codes of the digits on Windows.
    pub fn windows() -> (r: Self)
        ensures
            r.well_formed(),
            forall|id: u8| valid_id(id) ==> #[trigger] r.keycode(id) == 0x30 + id,
    {
        DigitKeycodes { codes: [0x31, 0x32, 0x33, 0x34, 0x35, 0x36, 0x37, 0x38, 0x39] }
    }

    /// The keycode of the digit of a notecard.
    pub fn keycode_for(&self, id: NotecardId) -> (r: i64)
        ensures
            r == self.keycode(id@),
    {
        self.codes[(id.value() - 1) as usize]
    }

    /// The notecard whose digit has the given keycode.
    pub fn digit_for(&self, keycode: i64) -> (r: Option<NotecardId>)
        ensures
            match r {
                Some(id) => self.keycode(id@) == keycode,
                None => forall|id: u8| valid_id(id) ==> self.keycode(id) != keycode,
            },
    {
        let mut i: u8 = 1;
        while i <= 9
            invariant
                1 <= i <= 10,
                forall|id: u8| 1 <= id < i ==> self.keycode(id) != keycode,
            decreases 10 - i,
        {
            if self.codes[(i - 1) as usize] == keycode {
                return Some(NotecardId::from_valid(i));
            }
            i = i + 1;
        }
        None
    }

    /// In a well-formed layout a keycode belongs to at most one digit.
    pub proof fn lemma_keycodes_distinct(&self, a: u8, b: u8)
        requires
            self.well_formed(),
            valid_id(a),
            valid_id(b),
            self.keycode(a) == self.keycode(b),
        ensures
            a == b,
    {
        if a < b {
            assert(self.codes@[a - 1] != self.codes@[b - 1]);
        } else if b < a {
            assert(self.codes@[b - 1] != self.codes@[a - 1]);
        }
    }
}

/// The number from which Windows counts the hotkeys of the notecards: the
/// hotkey of the notecard 1 is registered as 1001, that of 9 as 1009.
pub const HOTKEY_BASE_ID: i32 = 1000;

/// The number under which Windows registers the hotkey of a notecard.
pub fn windows_hotkey_id(id: NotecardId) -> (r: i32)
    ensures
        r == HOTKEY_BASE_ID + id@,
{
    HOTKEY_BASE_ID + id.value() as i32
}

/// The notecard whose hotkey Windows reports under the given number.
pub fn notecard_for_hotkey_id(hotkey_id: i32) -> (r: Option<NotecardId>)
    ensures
        match r {
            Some(id) => hotkey_id == HOTKEY_BASE_ID + id@,
            None => forall|id: u8| valid_id(id) ==> hotkey_id != HOTKEY_BASE_ID + id,
        },
{
    if HOTKEY_BASE_ID < hotkey_id && hotkey_id <= HOTKEY_BASE_ID + 9 {
        Some(NotecardId::from_valid((hotkey_id - HOTKEY_BASE_ID) as u8))
    } else {
        None
    }
}

/// How many of the nine notecards have a hotkey.
#[derive(Debug, Clone, Copy, PartialEq, Eq, Structural)]
pub enum RegistryState {
    /// No notecard has a hotkey.
    Empty,
    /// Some notecards have a hotkey and some have none.
    Partial,
    /// Every notecard has a hotkey.
    Full,
}

/// What the key hook is told about a key event.
#[derive(Debug, Clone, Copy, PartialEq, Eq)]
pub struct KeyEventDecision {
    /// The notecard that the key summons, if it summons one.
    pub matched: Option<NotecardId>,
    /// Whether the hook has to swallow the key; a key that is not swallowed
    /// passes through to the application it was meant for.
    pub consume: bool,
}

/// What a list of bindings holds, each list of modifiers by its value.
pub open spec fn bindings_view(hotkeys: Map<u8, Vec<HotkeyModifier>>) -> Map<
    u8,
    Seq<HotkeyModifier>,
> {
    Map::new(|k: u8| hotkeys.contains_key(k), |k: u8| hotkeys[k]@)
}

/// Whether the configuration holds a notecard with content under `id`.
pub open spec fn has_content(config: ConfigView, id: u8) -> bool {
    config.notecards.contains_key(id) && !config.notecards[id].is_empty()
}

/// The bindings that a configuration asks for: every notecard from 1 to 9
/// with content is bound to the modifiers of the configuration, and no other.
pub open spec fn reconciled_bindings(config: ConfigView) -> Map<u8, Seq<HotkeyModifier>> {
    Map::new(|k: u8| valid_id(k) && has_content(config, k), |k: u8| config.hotkey_modifiers)
}

/// The registry: the bindings from notecards to modifier sets that are
/// active, and the keycodes of the digits. Its value is the map from the
/// number of a bound notecard to its modifiers.
pub struct HotkeyManager {
    keycodes: DigitKeycodes,
    hotkeys: HashMap<u8, Vec<HotkeyModifier>>,
}

impl View for HotkeyManager {
    type V = Map<u8, Seq<HotkeyModifier>>;

    closed spec fn view(&self) -> Map<u8, Seq<HotkeyModifier>> {
        bindings_view(self.hotkeys@)
    }
}

impl HotkeyManager {
    /// Holds of every registry at all times: only notecards from 1 to 9 are
    /// bound, and no two digits share a keycode.
    #[verifier::type_invariant]
    pub closed spec fn well_formed(&self) -> bool {
        &&& self.keycodes.well_formed()
        &&& forall|k: u8| #[trigger] self.hotkeys@.contains_key(k) ==> valid_id(k)
    }

    /// The keycodes of the digits.
    pub closed spec fn layout(&self) -> DigitKeycodes {
        self.keycodes
    }

    /// Whether a key event summons the notecard `id`: the notecard is bound,
    /// the keycode is that of its digit, and the pressed modifiers are exactly
    /// the bound ones.
    pub open spec fn matches(&self, id: u8, pressed: Seq<HotkeyModifier>, keycode: i64) -> bool {
        &&& valid_id(id)
        &&& self@.contains_key(id)
        &&& self.layout().keycode(id) == keycode
        &&& same_modifier_set(pressed, self@[id])
    }

    /// The notecard that a key event summons, if any.
    pub open spec fn matched(&self, pressed: Seq<HotkeyModifier>, keycode: i64) -> Option<u8> {
        if exists|id: u8| self.matches(id, pressed, keycode) {
            Some(choose|id: u8| self.matches(id, pressed, keycode))
        } else {
            None
        }
    }

    /// The state of the registry.
    pub open spec fn state_of(bindings: Map<u8, Seq<HotkeyModifier>>) -> RegistryState {
        if forall|k: u8| valid_id(k) ==> !#[trigger] bindings.contains_key(k) {
            RegistryState::Empty
        } else if forall|k: u8| valid_id(k) ==> #[trigger] bindings.contains_key(k) {
            RegistryState::Full
        } else {
            RegistryState::Partial
        }
    }

    /// A registry without bindings.
    pub fn new(keycodes: DigitKeycodes) -> (r: Self)
        ensures
            r.well_formed(),
            r.layout() == keycodes,
            r@ == Map::<u8, Seq<HotkeyModifier>>::empty(),
    {
        proof {
            use_type_invariant(&keycodes);
        }
        let r = HotkeyManager { keycodes, hotkeys: HashMap::new() };
        r
    }

    /// Binds the notecard `id` to `modifiers`, in place of any earlier binding.
    pub fn register_hotkey(&mut self, id: NotecardId, modifiers: &[HotkeyModifier])
        ensures
            final(self).well_formed(),
            final(self).layout() == old(self).layout(),
            final(self)@ == old(self)@.insert(id@, modifiers@),
    {
        proof {
            use_type_invariant(&*self);
        }
        let mut hotkeys: HashMap<u8, Vec<HotkeyModifier>> = HashMap::new();
        std::mem::swap(&mut self.hotkeys, &mut hotkeys);
        hotkeys.insert(id.value(), copy_modifiers(modifiers));
        self.hotkeys = hotkeys;
    }

    /// Removes the binding of the notecard `id`, if there is one.
    pub fn unregister_hotkey(&mut self, id: NotecardId)
        ensures
            final(self).well_formed(),
            final(self).layout() == old(self).layout(),
            final(self)@ == old(self)@.remove(id@),
    {
        proof {
            use_type_invariant(&*self);
        }
        let mut hotkeys: HashMap<u8, Vec<HotkeyModifier>> = HashMap::new();
        std::mem::swap(&mut self.hotkeys, &mut hotkeys);
        let key = id.value();
        hotkeys.remove(&key);
        self.hotkeys = hotkeys;
    }

    /// Removes every binding.
    pub fn unregister_all(&mut self)
        ensures
            final(self).well_formed(),
            final(self).layout() == old(self).layout(),
            final(self)@ == Map::<u8, Seq<HotkeyModifier>>::empty(),
    {
        proof {
            use_type_invariant(&*self);
        }
        self.hotkeys = HashMap::new();
    }

    /// The modifiers the notecard `id` is bound to, if it is bound.
    pub fn binding(&self, id: NotecardId) -> (r: Option<Vec<HotkeyModifier>>)
        ensures
            match r {
                Some(modifiers) => self@.contains_key(id@) && modifiers@ == self@[id@],
                None => !self@.contains_key(id@),
            },
    {
        let key = id.value();
        match self.hotkeys.get(&key) {
            Some(modifiers) => Some(copy_modifiers(modifiers.as_slice())),
            None => None,
        }
    }

    /// The notecard that a key event summons, if any. At most one can match,
    /// since no two digits share a keycode.
    pub fn check_hotkey(&self, pressed: &[HotkeyModifier], keycode: i64) -> (r: Option<NotecardId>)
        ensures
            match r {
                Some(id) => self.matches(id@, pressed@, keycode) && self.matched(pressed@, keycode)
                    == Some(id@),
                None => self.matched(pressed@, keycode) is None,
            },
    {
        proof {
            use_type_invariant(self);
        }
        let id = match self.keycodes.digit_for(keycode) {
            Some(id) => id,
            None => {
                return None;
            },
        };
        let key = id.value();
        assert forall|other: u8| other != key implies !self.matches(other, pressed@, keycode) by {
            if valid_id(other) && self.keycodes.keycode(other) == keycode {
                self.keycodes.lemma_keycodes_distinct(other, key);
            }
        }
        match self.hotkeys.get(&key) {
            Some(required) => {
                if check_modifiers(pressed, required.as_slice()) {
                    Some(id)
                } else {
                    None
                }
            },
            None => None,
        }
    }

    /// What the key hook does with a key event: a key that summons a notecard
    /// is reported and swallowed, any other key passes through.
    pub fn on_key_event(&self, pressed: &[HotkeyModifier], keycode: i64) -> (r: KeyEventDecision)
        ensures
            match r.matched {
                Some(id) => self.matches(id@, pressed@, keycode) && self.matched(pressed@, keycode)
                    == Some(id@),
                None => self.matched(pressed@, keycode) is None,
            },
            r.consume == (r.matched is Some),
    {
        match self.check_hotkey(pressed, keycode) {
            Some(id) => KeyEventDecision { matched: Some(id), consume: true },
            None => KeyEventDecision { matched: None, consume: false },
        }
    }

    /// Whether none, some or all of the notecards have a hotkey.
    pub fn state(&self) -> (r: RegistryState)
        ensures
            r == Self::state_of(self@),
    {
        let mut any = false;
        let mut all = true;
        let mut i: u8 = 1;
        while i <= 9
            invariant
                1 <= i <= 10,
                !any <==> forall|k: u8| 1 <= k < i ==> !#[trigger] self@.contains_key(k),
                all <==> forall|k: u8| 1 <= k < i ==> #[trigger] self@.contains_key(k),
            decreases 10 - i,
        {
            let bound = self.hotkeys.contains_key(&i);
            assert(bound == self@.contains_key(i));
            if bound {
                any = true;
            } else {
                all = false;
            }
            i = i + 1;
        }
        if !any {
            RegistryState::Empty
        } else if all {
            RegistryState::Full
        } else {
            RegistryState::Partial
        }
    }

    /// Aligns the bindings with a configuration: every notecard from 1 to 9
    /// that has content is bound to the modifiers of the configuration, every
    /// other is unbound.
    pub fn reconcile(&mut self, config: &Config)
        ensures
            final(self).well_formed(),
            final(self).layout() == old(self).layout(),
            final(self)@ == reconciled_bindings(config@),
    {
        proof {
            use_type_invariant(&*self);
        }
        let mut hotkeys: HashMap<u8, Vec<HotkeyModifier>> = HashMap::new();
        let mut i: u8 = 1;
        while i <= 9
            invariant
                1 <= i <= 10,
                forall|k: u8|
                    #[trigger] hotkeys@.contains_key(k) <==> 1 <= k < i && reconciled_bindings(
                        config@,
                    ).contains_key(k),
                forall|k: u8|
                    #[trigger] hotkeys@.contains_key(k) ==> hotkeys@[k]@
                        == config@.hotkey_modifiers,
            decreases 10 - i,
        {
            let with_content = match config.notecards.get(&i) {
                Some(card) => !card.is_empty(),
                None => false,
            };
            if with_content {
                hotkeys.insert(i, copy_modifiers(config.hotkey_modifiers.as_slice()));
            }
            i = i + 1;
        }
        self.hotkeys = hotkeys;
    }
}

/// At most one notecard matches a key event.
pub proof fn lemma_match_unique(
    registry: HotkeyManager,
    a: u8,
    b: u8,
    pressed: Seq<HotkeyModifier>,
    keycode: i64,
)
    requires
        registry.well_formed(),
        registry.matches(a, pressed, keycode),
        registry.matches(b, pressed, keycode),
    ensures
        a == b,
{
    registry.layout().lemma_keycodes_distinct(a, b);
}

/// Once a notecard is bound to some modifiers, those modifiers together with
/// the key of its digit summon it, and it alone.
pub proof fn lemma_registered_hotkey_matches(
    before: HotkeyManager,
    after: HotkeyManager,
    id: u8,
    modifiers: Seq<HotkeyModifier>,
)
    requires
        valid_id(id),
        after.well_formed(),
        after@ == before@.insert(id, modifiers),
    ensures
        after.matched(modifiers, after.layout().keycode(id)) == Some(id),
{
    let keycode = after.layout().keycode(id);
    assert(after.matches(id, modifiers, keycode));
    let found = choose|other: u8| after.matches(other, modifiers, keycode);
    lemma_match_unique(after, found, id, modifiers, keycode);
}

/// Once the binding of a notecard is removed, no modifiers summon anything
/// with the key of its digit.
pub proof fn lemma_unregistered_hotkey_is_silent(
    before: HotkeyManager,
    after: HotkeyManager,
    id: u8,
    pressed: Seq<HotkeyModifier>,
)
    requires
        valid_id(id),
        after.well_formed(),
        after@ == before@.remove(id),
    ensures
        after.matched(pressed, after.layout().keycode(id)) is None,
{
    let keycode = after.layout().keycode(id);
    assert forall|other: u8| !after.matches(other, pressed, keycode) by {
        if after.matches(other, pressed, keycode) {
            after.layout().lemma_keycodes_distinct(other, id);
        }
    }
}

/// Modifiers that are not exactly the bound ones summon nothing with the key
/// of the digit of a notecard: neither with a key missing nor with a key
/// besides the bound ones.
pub proof fn lemma_other_modifiers_do_not_match(
    registry: HotkeyManager,
    id: u8,
    pressed: Seq<HotkeyModifier>,
)
    requires
        valid_id(id),
        registry.well_formed(),
        registry@.contains_key(id),
        !same_modifier_set(pressed, registry@[id]),
    ensures
        registry.matched(pressed, registry.layout().keycode(id)) is None,
{
    let keycode = registry.layout().keycode(id);
    assert forall|other: u8| !registry.matches(other, pressed, keycode) by {
        if registry.matches(other, pressed, keycode) {
            registry.layout().lemma_keycodes_distinct(other, id);
        }
    }
}

/// Pressing a key besides the bound ones makes another set of modifiers.
pub proof fn lemma_extra_modifier_differs(
    bound: Seq<HotkeyModifier>,
    pressed: Seq<HotkeyModifier>,
    extra: HotkeyModifier,
)
    requires
        pressed.contains(extra),
        !bound.contains(extra),
    ensures
        !same_modifier_set(pressed, bound),
{
    assert(!bound.to_set().contains(extra));
}

/// In a registry that was aligned with a configuration, the modifiers of the
/// configuration together with the key of a digit summon the notecard of the
/// digit if that notecard has content, and nothing if it has none.
pub proof fn lemma_reconciled_hotkey_fires(registry: HotkeyManager, config: ConfigView, id: u8)
    requires
        valid_id(id),
        registry.well_formed(),
        registry@ == reconciled_bindings(config),
    ensures
        registry.matched(config.hotkey_modifiers, registry.layout().keycode(id)) == if has_content(
            config,
            id,
        ) {
            Some(id)
        } else {
            None
        },
{
    let keycode = registry.layout().keycode(id);
    let pressed = config.hotkey_modifiers;
    if has_content(config, id) {
        assert(registry.matches(id, pressed, keycode));
        let found = choose|other: u8| registry.matches(other, pressed, keycode);
        lemma_match_unique(registry, found, id, pressed, keycode);
    } else {
        assert forall|other: u8| !registry.matches(other, pressed, keycode) by {
            if registry.matches(other, pressed, keycode) {
                registry.layout().lemma_keycodes_distinct(other, id);
            }
        }
    }
}

/// Binding a notecard twice to the same modifiers is binding it once, and so
/// is removing a binding twice.
pub proof fn lemma_register_idempotent(
    bindings: Map<u8, Seq<HotkeyModifier>>,
    id: u8,
    modifiers: Seq<HotkeyModifier>,
)
    ensures
        bindings.insert(id, modifiers).insert(id, modifiers) == bindings.insert(id, modifiers),
        bindings.remove(id).remove(id) == bindings.remove(id),
{
}

} // verus!
