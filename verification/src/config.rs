//! The configuration and the store that guards it.

use crate::error::{ErrorView, NotecognitoError};
use crate::notecard::{content_too_long_message, valid_id, Notecard, NotecardId, NotecardView};
use crate::platform::HotkeyModifier;
use crate::text::{digit_char, lemma_digit_round_trip, parse_u8, parsed_u8};
use std::collections::HashMap;
use vstd::prelude::*;
use vstd::string::StringExecFns;

verus! {

broadcast use vstd::std_specs::hash::group_hash_axioms;

/// How an overlay is drawn. The control plane carries these values between the
/// store, the file, the wire and the overlay without reading them.
#[derive(Debug, PartialEq, Eq)]
pub struct DisplayProperties {
    /// Opacity, nominally from 0 to 100.
    pub opacity: u8,
    /// Position on screen, as x and y.
    pub position: (i32, i32),
    /// Size, as width and height.
    pub size: (u32, u32),
    /// Seconds after which the overlay hides itself; 0 for never.
    pub auto_hide_duration: u32,
    /// Name of the font family.
    pub font_family: String,
    /// Font size in points.
    pub font_size: u32,
    /// Whether algorithmic spacing is on.
    pub algorithmic_spacing: bool,
}

/// The mathematical value of [`DisplayProperties`].
pub struct DisplayPropertiesView {
    pub opacity: u8,
    pub position: (i32, i32),
    pub size: (u32, u32),
    pub auto_hide_duration: u32,
    pub font_family: Seq<char>,
    pub font_size: u32,
    pub algorithmic_spacing: bool,
}

impl DisplayPropertiesView {
    /// The properties of a fresh configuration.
    pub open spec fn default_value() -> DisplayPropertiesView {
        DisplayPropertiesView {
            opacity: 95,
            position: (100, 100),
            size: (400, 200),
            auto_hide_duration: 0,
            font_family: "System"@,
            font_size: 16,
            algorithmic_spacing: false,
        }
    }
}

impl View for DisplayProperties {
    type V = DisplayPropertiesView;

    open spec fn view(&self) -> DisplayPropertiesView {
        DisplayPropertiesView {
            opacity: self.opacity,
            position: self.position,
            size: self.size,
            auto_hide_duration: self.auto_hide_duration,
            font_family: self.font_family@,
            font_size: self.font_size,
            algorithmic_spacing: self.algorithmic_spacing,
        }
    }
}

impl Default for DisplayProperties {
    fn default() -> (r: Self)
        ensures
            r@ == DisplayPropertiesView::default_value(),
    {
        DisplayProperties {
            opacity: 95,
            position: (100, 100),
            size: (400, 200),
            auto_hide_duration: 0,
            font_family: String::from_str("System"),
            font_size: 16,
            algorithmic_spacing: false,
        }
    }
}

impl Clone for DisplayProperties {
    fn clone(&self) -> (r: Self)
        ensures
            r == *self,
    {
        DisplayProperties {
            opacity: self.opacity,
            position: self.position,
            size: self.size,
            auto_hide_duration: self.auto_hide_duration,
            font_family: self.font_family.clone(),
            font_size: self.font_size,
            algorithmic_spacing: self.algorithmic_spacing,
        }
    }
}

/// Whether no key of the notecards lies outside 1 to 9.
pub open spec fn keys_in_range(cards: Map<u8, NotecardView>) -> bool {
    forall|k: u8| #[trigger] cards.contains_key(k) ==> valid_id(k)
}

/// The notecards of a map, each by its mathematical value.
pub open spec fn cards_view(cards: Map<u8, Notecard>) -> Map<u8, NotecardView> {
    Map::new(|k: u8| cards.contains_key(k), |k: u8| cards[k]@)
}

/// The whole configuration of the application.
#[derive(Debug, PartialEq, Eq)]
pub struct Config {
    /// Whether the application starts at login.
    pub launch_on_startup: bool,
    /// The properties every overlay is shown with.
    pub default_display_properties: DisplayProperties,
    /// The modifier keys of the hotkeys; a set, whatever the order and repeats.
    pub hotkey_modifiers: Vec<HotkeyModifier>,
    /// The notecards, each under the number of its identifier.
    pub notecards: HashMap<u8, Notecard>,
}

/// The mathematical value of a [`Config`].
pub struct ConfigView {
    pub launch_on_startup: bool,
    pub default_display_properties: DisplayPropertiesView,
    pub hotkey_modifiers: Seq<HotkeyModifier>,
    pub notecards: Map<u8, NotecardView>,
}

impl ConfigView {
    /// The configuration of a fresh installation: the nine notecards, all
    /// empty, and control and shift as the modifiers.
    pub open spec fn default_value() -> ConfigView {
        ConfigView {
            launch_on_startup: false,
            default_display_properties: DisplayPropertiesView::default_value(),
            hotkey_modifiers: seq![HotkeyModifier::Control, HotkeyModifier::Shift],
            notecards: Map::new(|k: u8| valid_id(k), |k: u8| NotecardView::empty(k)),
        }
    }

    /// The keys of the notecards are exactly the numbers 1 to 9.
    pub open spec fn has_all_cards(self) -> bool {
        forall|k: u8| valid_id(k) <==> #[trigger] self.notecards.contains_key(k)
    }

    /// Every notecard under a key from 1 to 9 respects the length bound.
    pub open spec fn cards_fit(self) -> bool {
        forall|k: u8|
            valid_id(k) && #[trigger] self.notecards.contains_key(k) ==> self.notecards[k].fits()
    }

    /// Every notecard has one of the nine identifiers.
    pub open spec fn ids_valid(self) -> bool {
        forall|k: u8| #[trigger] self.notecards.contains_key(k) ==> valid_id(self.notecards[k].id)
    }

    /// What the store guarantees of its configuration at all times.
    pub open spec fn well_formed(self) -> bool {
        self.has_all_cards() && self.cards_fit() && self.ids_valid()
    }

    /// The configuration with exactly the keys 1 to 9: a missing notecard is
    /// filled in empty, an entry under any other key is left out.
    pub open spec fn normalized(self) -> ConfigView {
        ConfigView {
            notecards: Map::new(
                |k: u8| valid_id(k),
                |k: u8|
                    if self.notecards.contains_key(k) {
                        self.notecards[k]
                    } else {
                        NotecardView::empty(k)
                    },
            ),
            ..self
        }
    }

    /// The configuration with `card` under its own identifier.
    pub open spec fn put(self, card: NotecardView) -> ConfigView {
        ConfigView { notecards: self.notecards.insert(card.id, card), ..self }
    }

    /// The configuration with another launch flag.
    pub open spec fn with_launch_on_startup(self, enabled: bool) -> ConfigView {
        ConfigView { launch_on_startup: enabled, ..self }
    }
}

impl View for Config {
    type V = ConfigView;

    open spec fn view(&self) -> ConfigView {
        ConfigView {
            launch_on_startup: self.launch_on_startup,
            default_display_properties: self.default_display_properties@,
            hotkey_modifiers: self.hotkey_modifiers@,
            notecards: cards_view(self.notecards@),
        }
    }
}

/// Copies a list of modifiers.
pub fn copy_modifiers(modifiers: &[HotkeyModifier]) -> (r: Vec<HotkeyModifier>)
    ensures
        r@ == modifiers@,
{
    let mut r: Vec<HotkeyModifier> = Vec::new();
    let mut i: usize = 0;
    while i < modifiers.len()
        invariant
            i <= modifiers.len(),
            r@ == modifiers@.subrange(0, i as int),
        decreases modifiers.len() - i,
    {
        r.push(modifiers[i]);
        i = i + 1;
    }
    r
}

impl Default for Config {
    fn default() -> (r: Self)
        ensures
            r@ == ConfigView::default_value(),
    {
        let mut notecards: HashMap<u8, Notecard> = HashMap::new();
        let mut i: u8 = 1;
        while i <= 9
            invariant
                1 <= i <= 10,
                forall|k: u8| #[trigger] notecards@.contains_key(k) <==> 1 <= k < i,
                forall|k: u8|
                    #[trigger] notecards@.contains_key(k) ==> notecards@[k]@ == NotecardView::empty(
                        k,
                    ),
            decreases 10 - i,
        {
            notecards.insert(i, Notecard::empty(NotecardId::from_valid(i)));
            i = i + 1;
        }
        let mut hotkey_modifiers: Vec<HotkeyModifier> = Vec::new();
        hotkey_modifiers.push(HotkeyModifier::Control);
        hotkey_modifiers.push(HotkeyModifier::Shift);
        let r = Config {
            launch_on_startup: false,
            default_display_properties: DisplayProperties::default(),
            hotkey_modifiers,
            notecards,
        };
        assert(r@.notecards =~= ConfigView::default_value().notecards);
        assert(r@.hotkey_modifiers =~= ConfigView::default_value().hotkey_modifiers);
        r
    }
}

impl Clone for Config {
    fn clone(&self) -> (r: Self)
        ensures
            r@ == self@,
    {
        Config {
            launch_on_startup: self.launch_on_startup,
            default_display_properties: self.default_display_properties.clone(),
            hotkey_modifiers: copy_modifiers(self.hotkey_modifiers.as_slice()),
            notecards: self.notecards.clone(),
        }
    }
}

impl Config {
    /// Brings a configuration into the form the store keeps: every notecard
    /// from 1 to 9 present, a missing one filled in empty, nothing under any
    /// other key. Fails when one of the nine is longer than the bound.
    pub fn normalize(self) -> (r: Result<Config, NotecognitoError>)
        ensures
            match r {
                Ok(c) => self@.cards_fit() && c@ == self@.normalized() && c@.well_formed(),
                Err(e) => !self@.cards_fit() && e@ == ErrorView::Config(
                    content_too_long_message(),
                ),
            },
    {
        let mut source = self;
        let mut notecards: HashMap<u8, Notecard> = HashMap::new();
        let mut i: u8 = 1;
        while i <= 9
            invariant
                1 <= i <= 10,
                source.launch_on_startup == self.launch_on_startup,
                source.default_display_properties == self.default_display_properties,
                source.hotkey_modifiers == self.hotkey_modifiers,
                forall|k: u8|
                    i <= k ==> (#[trigger] source.notecards@.contains_key(k)
                        <==> self.notecards@.contains_key(k)),
                forall|k: u8|
                    i <= k && #[trigger] source.notecards@.contains_key(k)
                        ==> source.notecards@[k] == self.notecards@[k],
                forall|k: u8| #[trigger] notecards@.contains_key(k) <==> 1 <= k < i,
                forall|k: u8|
                    #[trigger] notecards@.contains_key(k) ==> notecards@[k]@
                        == self@.normalized().notecards[k] && notecards@[k]@.fits() && valid_id(
                        notecards@[k]@.id,
                    ),
            decreases 10 - i,
        {
            let card = match source.notecards.remove(&i) {
                Some(card) => {
                    let _ = card.id.value();
                    match card.validate() {
                        Ok(()) => card,
                        Err(e) => {
                            assert(self@.notecards.contains_key(i));
                            return Err(e);
                        },
                    }
                },
                None => {
                    let card = Notecard::empty(NotecardId::from_valid(i));
                    proof {
                        lemma_empty_card_fits(i);
                    }
                    card
                },
            };
            notecards.insert(i, card);
            i = i + 1;
        }
        let r = Config {
            launch_on_startup: source.launch_on_startup,
            default_display_properties: source.default_display_properties,
            hotkey_modifiers: source.hotkey_modifiers,
            notecards,
        };
        assert(r@.notecards =~= self@.normalized().notecards);
        assert forall|k: u8|
            valid_id(k) && #[trigger] self@.notecards.contains_key(
                k,
            ) implies self@.notecards[k].fits() by {
            assert(notecards@.contains_key(k));
        }
        Ok(r)
    }
}

/// An empty notecard respects the length bound.
pub proof fn lemma_empty_card_fits(id: u8)
    ensures
        NotecardView::empty(id).fits(),
{
}

/// The configuration of a fresh installation is one the store accepts.
pub proof fn lemma_default_well_formed()
    ensures
        ConfigView::default_value().well_formed(),
{
    assert forall|k: u8| valid_id(k) implies NotecardView::empty(k).fits() by {
        lemma_empty_card_fits(k);
    }
}

/// A configuration that the store accepts is its own normal form.
pub proof fn lemma_well_formed_is_normalized(config: ConfigView)
    requires
        config.well_formed(),
    ensures
        config.normalized() == config,
{
    assert(config.normalized().notecards =~= config.notecards);
}

/// The store: the one configuration of the process, with every notecard from
/// 1 to 9 present and within the length bound at all times.
pub struct ConfigManager {
    config_path: String,
    config: Config,
}

impl View for ConfigManager {
    type V = ConfigView;

    closed spec fn view(&self) -> ConfigView {
        self.config@
    }
}

impl ConfigManager {
    /// Holds of every store at all times: the nine notecards are present and
    /// each respects the length bound.
    #[verifier::type_invariant]
    pub open spec fn well_formed(self) -> bool {
        self@.well_formed()
    }

    /// Where the configuration is kept on disk.
    pub closed spec fn path(&self) -> Seq<char> {
        self.config_path@
    }

    /// The store for the file at `path`, given what that file holds: `None`
    /// where there is no file, which gives the configuration of a fresh
    /// installation. What the file holds is normalized; it is refused when one
    /// of its notecards is too long.
    pub fn with_path(path: String, stored: Option<Config>) -> (r: Result<Self, NotecognitoError>)
        ensures
            match r {
                Ok(m) => m.path() == path@ && m@.well_formed() && match stored {
                    Some(c) => c@.cards_fit() && m@ == c@.normalized(),
                    None => m@ == ConfigView::default_value(),
                },
                Err(e) => stored matches Some(c) && !c@.cards_fit() && e@ == ErrorView::Config(
                    content_too_long_message(),
                ),
            },
    {
        let config = match stored {
            Some(c) => match c.normalize() {
                Ok(c) => c,
                Err(e) => {
                    return Err(e);
                },
            },
            None => {
                proof {
                    lemma_default_well_formed();
                }
                Config::default()
            },
        };
        Ok(ConfigManager { config_path: path, config })
    }

    /// The path the store was made for.
    pub fn config_path(&self) -> (r: &str)
        ensures
            r@ == self.path(),
    {
        self.config_path.as_str()
    }

    /// The current configuration.
    pub fn config(&self) -> (r: &Config)
        ensures
            r@ == self@,
            self@.well_formed(),
    {
        proof {
            use_type_invariant(self);
        }
        &self.config
    }

    /// A deep copy of the current configuration.
    pub fn snapshot(&self) -> (r: Config)
        ensures
            r@ == self@,
            self@.well_formed(),
    {
        proof {
            use_type_invariant(self);
        }
        self.config.clone()
    }

    /// The notecard under `id`. There always is one.
    pub fn get_notecard(&self, id: NotecardId) -> (r: Option<&Notecard>)
        ensures
            self@.notecards.contains_key(id@),
            r matches Some(card) && card@ == self@.notecards[id@],
    {
        proof {
            use_type_invariant(self);
        }
        let key = id.value();
        assert(self@.notecards.contains_key(key));
        self.config.notecards.get(&key)
    }

    /// Replaces the notecard under the identifier of `notecard`, unless its
    /// content is too long: then nothing changes.
    pub fn update_notecard(&mut self, notecard: Notecard) -> (r: Result<(), NotecognitoError>)
        ensures
            final(self).path() == old(self).path(),
            final(self)@.well_formed(),
            match r {
                Ok(()) => notecard@.fits() && final(self)@ == old(self)@.put(notecard@),
                Err(e) => !notecard@.fits() && final(self)@ == old(self)@ && e@
                    == ErrorView::Config(content_too_long_message()),
            },
    {
        proof {
            use_type_invariant(&*self);
        }
        match notecard.validate() {
            Ok(()) => {},
            Err(e) => {
                return Err(e);
            },
        }
        let key = notecard.id.value();
        let mut config = Config::default();
        proof {
            lemma_default_well_formed();
        }
        std::mem::swap(&mut self.config, &mut config);
        config.notecards.insert(key, notecard);
        assert(config@.notecards =~= old(self).config@.put(notecard@).notecards);
        self.config = config;
        Ok(())
    }

    /// Replaces the whole configuration by `config`, normalized, unless one of
    /// its notecards is too long: then nothing changes.
    pub fn replace_all(&mut self, config: Config) -> (r: Result<(), NotecognitoError>)
        ensures
            final(self).path() == old(self).path(),
            final(self)@.well_formed(),
            match r {
                Ok(()) => config@.cards_fit() && final(self)@ == config@.normalized(),
                Err(e) => !config@.cards_fit() && final(self)@ == old(self)@ && e@
                    == ErrorView::Config(content_too_long_message()),
            },
    {
        proof {
            use_type_invariant(&*self);
        }
        match config.normalize() {
            Ok(c) => {
                self.config = c;
                Ok(())
            },
            Err(e) => Err(e),
        }
    }

    /// The modifier keys of the hotkeys.
    pub fn modifiers(&self) -> (r: Vec<HotkeyModifier>)
        ensures
            r@ == self@.hotkey_modifiers,
    {
        copy_modifiers(self.config.hotkey_modifiers.as_slice())
    }

    /// Sets whether the application starts at login.
    pub fn set_launch_on_startup(&mut self, enabled: bool)
        ensures
            final(self).path() == old(self).path(),
            final(self)@.well_formed(),
            final(self)@ == old(self)@.with_launch_on_startup(enabled),
    {
        proof {
            use_type_invariant(&*self);
        }
        let mut config = Config::default();
        proof {
            lemma_default_well_formed();
        }
        std::mem::swap(&mut self.config, &mut config);
        config.launch_on_startup = enabled;
        assert(config@.notecards == old(self).config@.notecards);
        self.config = config;
    }
}

/// The key under which the notecard `id` stands in a serialized configuration.
pub open spec fn notecard_key(id: u8) -> Seq<char> {
    seq![digit_char(id as nat)]
}

/// The text of the error for a key that is no number.
pub open spec fn invalid_key_message() -> Seq<char> {
    "notecard key is not a number from 0 to 255"@
}

/// The identifier that a key of a serialized configuration denotes: the key
/// is read as a decimal byte, which then has to lie between 1 and 9.
pub open spec fn parsed_key(key: Seq<char>) -> Result<u8, ErrorView> {
    match parsed_u8(key) {
        Some(v) => if valid_id(v) {
            Ok(v)
        } else {
            Err(ErrorView::InvalidNotecardId(v))
        },
        None => Err(ErrorView::Json(invalid_key_message())),
    }
}

/// The entries of a list, each by its mathematical value.
pub open spec fn entries_view(entries: Seq<(String, Notecard)>) -> Seq<(Seq<char>, NotecardView)> {
    Seq::new(entries.len(), |i: int| (entries[i].0@, entries[i].1@))
}

/// The entries for the notecards under the keys 1 to `n`, in rising order.
pub open spec fn entries_upto(cards: Map<u8, NotecardView>, n: nat) -> Seq<
    (Seq<char>, NotecardView),
>
    decreases n,
{
    if n == 0 {
        Seq::empty()
    } else {
        let rest = entries_upto(cards, (n - 1) as nat);
        if cards.contains_key(n as u8) {
            rest.push((notecard_key(n as u8), cards[n as u8]))
        } else {
            rest
        }
    }
}

/// What a map of notecards is serialized as: one entry for each notecard
/// under a key from 1 to 9, keyed by the decimal digit, in rising order.
pub open spec fn serialized_entries(cards: Map<u8, NotecardView>) -> Seq<
    (Seq<char>, NotecardView),
> {
    entries_upto(cards, 9)
}

/// The map that a list of serialized entries denotes: each key is parsed, a
/// later entry replaces an earlier one for the same notecard, and the first
/// key that is no identifier fails the whole list.
pub open spec fn deserialized_entries(entries: Seq<(Seq<char>, NotecardView)>) -> Result<
    Map<u8, NotecardView>,
    ErrorView,
>
    decreases entries.len(),
{
    if entries.len() == 0 {
        Ok(Map::empty())
    } else {
        match deserialized_entries(entries.drop_last()) {
            Err(e) => Err(e),
            Ok(cards) => match parsed_key(entries.last().0) {
                Ok(id) => Ok(cards.insert(id, entries.last().1)),
                Err(e) => Err(e),
            },
        }
    }
}

/// Reads a key of a serialized configuration.
pub fn parse_notecard_key(key: &str) -> (r: Result<NotecardId, NotecognitoError>)
    ensures
        match r {
            Ok(id) => parsed_key(key@) == Ok::<u8, ErrorView>(id@),
            Err(e) => parsed_key(key@) == Err::<u8, ErrorView>(e@),
        },
{
    match parse_u8(key) {
        Some(v) => NotecardId::new(v),
        None => Err(
            NotecognitoError::Json(String::from_str("notecard key is not a number from 0 to 255")),
        ),
    }
}

/// Turns the notecards of a configuration into the entries of its serialized
/// form.
pub fn serialize_notecards(notecards: &HashMap<u8, Notecard>) -> (r: Vec<(String, Notecard)>)
    ensures
        entries_view(r@) == serialized_entries(cards_view(notecards@)),
{
    let mut entries: Vec<(String, Notecard)> = Vec::new();
    let mut i: u8 = 1;
    while i <= 9
        invariant
            1 <= i <= 10,
            entries_view(entries@) == entries_upto(cards_view(notecards@), (i - 1) as nat),
        decreases 10 - i,
    {
        match notecards.get(&i) {
            Some(card) => {
                entries.push((NotecardId::from_valid(i).to_string(), card.clone()));
            },
            None => {},
        }
        i = i + 1;
    }
    entries
}

/// Turns the entries of a serialized configuration into its notecards.
pub fn deserialize_notecards(entries: &Vec<(String, Notecard)>) -> (r: Result<
    HashMap<u8, Notecard>,
    NotecognitoError,
>)
    ensures
        match r {
            Ok(cards) => deserialized_entries(entries_view(entries@)) == Ok::<
                Map<u8, NotecardView>,
                ErrorView,
            >(cards_view(cards@)),
            Err(e) => deserialized_entries(entries_view(entries@)) == Err::<
                Map<u8, NotecardView>,
                ErrorView,
            >(e@),
        },
{
    let mut cards: HashMap<u8, Notecard> = HashMap::new();
    let mut i: usize = 0;
    let ghost all = entries_view(entries@);
    assert(cards_view(cards@) =~= Map::empty());
    while i < entries.len()
        invariant
            i <= entries.len(),
            all == entries_view(entries@),
            deserialized_entries(all.subrange(0, i as int)) == Ok::<
                Map<u8, NotecardView>,
                ErrorView,
            >(cards_view(cards@)),
        decreases entries.len() - i,
    {
        let ghost prefix = all.subrange(0, i + 1);
        let ghost before = cards_view(cards@);
        proof {
            assert(prefix.drop_last() =~= all.subrange(0, i as int));
        }
        match parse_notecard_key(entries[i].0.as_str()) {
            Ok(id) => {
                cards.insert(id.value(), entries[i].1.clone());
                assert(cards_view(cards@) =~= before.insert(id@, entries[i as int].1@));
            },
            Err(e) => {
                proof {
                    lemma_deserialized_prefix_fails(all, i + 1);
                }
                return Err(e);
            },
        }
        i = i + 1;
    }
    assert(all.subrange(0, i as int) =~= all);
    Ok(cards)
}

/// Once a prefix of a list of entries fails, the whole list fails alike.
pub proof fn lemma_deserialized_prefix_fails(entries: Seq<(Seq<char>, NotecardView)>, n: int)
    requires
        0 <= n <= entries.len(),
        deserialized_entries(entries.subrange(0, n)) is Err,
    ensures
        deserialized_entries(entries) == deserialized_entries(entries.subrange(0, n)),
    decreases entries.len(),
{
    if n == entries.len() {
        assert(entries.subrange(0, n) =~= entries);
    } else {
        assert(entries.drop_last().subrange(0, n) =~= entries.subrange(0, n));
        lemma_deserialized_prefix_fails(entries.drop_last(), n);
    }
}

/// The key of a notecard reads back as its identifier.
pub proof fn lemma_key_round_trip(id: u8)
    requires
        valid_id(id),
    ensures
        parsed_key(notecard_key(id)) == Ok::<u8, ErrorView>(id),
{
    lemma_digit_round_trip(id as nat);
}

/// Serializing the notecards under the keys 1 to `n` and reading the entries
/// back gives those notecards.
pub proof fn lemma_entries_upto_round_trip(cards: Map<u8, NotecardView>, n: nat)
    requires
        n <= 9,
    ensures
        deserialized_entries(entries_upto(cards, n)) == Ok::<Map<u8, NotecardView>, ErrorView>(
            cards.restrict(Set::new(|k: u8| 1 <= k <= n)),
        ),
    decreases n,
{
    let kept = cards.restrict(Set::new(|k: u8| 1 <= k <= n));
    if n == 0 {
        assert(kept =~= Map::empty());
    } else {
        let rest = entries_upto(cards, (n - 1) as nat);
        let kept_before = cards.restrict(Set::new(|k: u8| 1 <= k <= n - 1));
        lemma_entries_upto_round_trip(cards, (n - 1) as nat);
        if cards.contains_key(n as u8) {
            let entries = rest.push((notecard_key(n as u8), cards[n as u8]));
            assert(entries.drop_last() =~= rest);
            lemma_key_round_trip(n as u8);
            assert(kept =~= kept_before.insert(n as u8, cards[n as u8]));
        } else {
            assert(kept =~= kept_before);
        }
    }
}

/// Where every key lies between 1 and 9, reading back the serialized entries
/// of a map of notecards gives the map.
pub proof fn lemma_notecards_round_trip(cards: Map<u8, NotecardView>)
    requires
        keys_in_range(cards),
    ensures
        deserialized_entries(serialized_entries(cards)) == Ok::<Map<u8, NotecardView>, ErrorView>(
            cards,
        ),
{
    lemma_entries_upto_round_trip(cards, 9);
    assert(cards.restrict(Set::new(|k: u8| 1 <= k <= 9)) =~= cards);
}

} // verus!
