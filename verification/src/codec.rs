//! The JSON form of the configuration and of the messages.
//!
//! A structure is an object with one member for each field; a member that is
//! not a field is ignored, and of two members of one name the later counts.
//! The notecards are an object keyed by the decimal digit of each notecard.

use crate::config::{
    cards_view, deserialize_notecards, deserialized_entries, entries_upto, entries_view,
    keys_in_range,
    lemma_notecards_round_trip, lemma_well_formed_is_normalized, serialize_notecards,
    serialized_entries, Config, ConfigManager, ConfigView, DisplayProperties,
    DisplayPropertiesView,
};
use crate::error::{ErrorView, NotecognitoError};
use crate::ipc::{IpcMessage, IpcMessageType, IpcMessageTypeView, IpcMessageView};
use crate::json::{
    as_bool, as_elements, as_integer, as_text, field, lemma_members_view,
    lemma_values_view, member, members_view, values_view, JsonValue, JsonView,
};
use crate::notecard::{
    content_too_long_message, valid_id, Notecard, NotecardId, NotecardView,
};
use crate::platform::{
    lemma_modifier_name_round_trip, modifier_name, named_modifier, HotkeyModifier,
};
use crate::text::same_text;
use std::collections::HashMap;
use vstd::prelude::*;
use vstd::string::StringExecFns;

verus! {

/// The member `name` of `value` as a truth value.
pub open spec fn bool_field(value: JsonView, name: Seq<char>) -> Option<bool> {
    match field(value, name) {
        Some(v) => as_bool(v),
        None => None,
    }
}

/// The member `name` of `value` as an integer between `low` and `high`.
pub open spec fn integer_field(value: JsonView, name: Seq<char>, low: int, high: int) -> Option<
    int,
> {
    match field(value, name) {
        Some(v) => as_integer(v, low, high),
        None => None,
    }
}

/// The member `name` of `value` as text.
pub open spec fn text_field(value: JsonView, name: Seq<char>) -> Option<Seq<char>> {
    match field(value, name) {
        Some(v) => as_text(v),
        None => None,
    }
}

/// `value` as an array of exactly two integers between `low` and `high`.
pub open spec fn as_pair(value: JsonView, low: int, high: int) -> Option<(int, int)> {
    match value {
        JsonView::Array(elements) => if elements.len() == 2 {
            match (as_integer(elements[0], low, high), as_integer(elements[1], low, high)) {
                (Some(a), Some(b)) => Some((a, b)),
                _ => None,
            }
        } else {
            None
        },
        _ => None,
    }
}

/// The member `name` of `value` as a pair of integers.
pub open spec fn pair_field(value: JsonView, name: Seq<char>, low: int, high: int) -> Option<
    (int, int),
> {
    match field(value, name) {
        Some(v) => as_pair(v, low, high),
        None => None,
    }
}

/// A pair of integers as an array.
pub open spec fn pair_json(a: int, b: int) -> JsonView {
    JsonView::Array(seq![JsonView::Number(a), JsonView::Number(b)])
}

/// Where the member at `i` is the last of its name, it is the member of that
/// name.
pub proof fn lemma_member_at(members: Seq<(Seq<char>, JsonView)>, i: int)
    requires
        0 <= i < members.len(),
        forall|j: int| i < j < members.len() ==> (#[trigger] members[j]).0 != members[i].0,
    ensures
        member(members, members[i].0) == Some(members[i].1),
    decreases members.len(),
{
    if i < members.len() - 1 {
        lemma_member_at(members.drop_last(), i);
    }
}

fn bool_member(value: &JsonValue, name: &str) -> (r: Option<bool>)
    ensures
        r == bool_field(value@, name@),
{
    match value.get(name) {
        Some(v) => v.as_bool(),
        None => None,
    }
}

fn integer_member(value: &JsonValue, name: &str, low: i64, high: i64) -> (r: Option<i64>)
    ensures
        match r {
            Some(n) => integer_field(value@, name@, low as int, high as int) == Some(n as int),
            None => integer_field(value@, name@, low as int, high as int) is None,
        },
{
    match value.get(name) {
        Some(v) => v.as_integer(low, high),
        None => None,
    }
}

fn text_member<'a>(value: &'a JsonValue, name: &str) -> (r: Option<&'a str>)
    ensures
        match r {
            Some(s) => text_field(value@, name@) == Some(s@),
            None => text_field(value@, name@) is None,
        },
{
    match value.get(name) {
        Some(v) => v.as_text(),
        None => None,
    }
}

fn pair_member(value: &JsonValue, name: &str, low: i64, high: i64) -> (r: Option<(i64, i64)>)
    ensures
        match r {
            Some(p) => pair_field(value@, name@, low as int, high as int) == Some(
                (p.0 as int, p.1 as int),
            ),
            None => pair_field(value@, name@, low as int, high as int) is None,
        },
{
    let elements = match value.get(name) {
        Some(v) => match v.as_elements() {
            Some(elements) => elements,
            None => {
                return None;
            },
        },
        None => {
            return None;
        },
    };
    proof {
        lemma_values_view(elements@);
    }
    if elements.len() != 2 {
        return None;
    }
    match (elements[0].as_integer(low, high), elements[1].as_integer(low, high)) {
        (Some(a), Some(b)) => Some((a, b)),
        _ => None,
    }
}

fn pair_value(a: i64, b: i64) -> (r: JsonValue)
    ensures
        r@ == pair_json(a as int, b as int),
{
    let mut elements: Vec<JsonValue> = Vec::new();
    elements.push(JsonValue::Number(a));
    elements.push(JsonValue::Number(b));
    proof {
        lemma_values_view(elements@);
        assert(values_view(elements@) =~= seq![
            JsonView::Number(a as int),
            JsonView::Number(b as int),
        ]);
    }
    JsonValue::Array(elements)
}

/// The text of the error for a value that is no display properties.
pub open spec fn invalid_display_properties_message() -> Seq<char> {
    "invalid display properties"@
}

/// The JSON form of display properties.
pub open spec fn display_properties_json(p: DisplayPropertiesView) -> JsonView {
    JsonView::Object(
        seq![
            ("opacity"@, JsonView::Number(p.opacity as int)),
            ("position"@, pair_json(p.position.0 as int, p.position.1 as int)),
            ("size"@, pair_json(p.size.0 as int, p.size.1 as int)),
            ("auto_hide_duration"@, JsonView::Number(p.auto_hide_duration as int)),
            ("font_family"@, JsonView::String(p.font_family)),
            ("font_size"@, JsonView::Number(p.font_size as int)),
            ("algorithmic_spacing"@, JsonView::Bool(p.algorithmic_spacing)),
        ],
    )
}

/// The display properties that a JSON value denotes: an object with all
/// seven fields, each of its type and within the range of its type.
pub open spec fn decoded_display_properties(value: JsonView) -> Result<
    DisplayPropertiesView,
    ErrorView,
> {
    match (
        integer_field(value, "opacity"@, 0, 0xff),
        pair_field(value, "position"@, -0x8000_0000, 0x7fff_ffff),
        pair_field(value, "size"@, 0, 0xffff_ffff),
        integer_field(value, "auto_hide_duration"@, 0, 0xffff_ffff),
        text_field(value, "font_family"@),
        integer_field(value, "font_size"@, 0, 0xffff_ffff),
        bool_field(value, "algorithmic_spacing"@),
    ) {
        (
            Some(opacity),
            Some(position),
            Some(size),
            Some(auto_hide_duration),
            Some(font_family),
            Some(font_size),
            Some(algorithmic_spacing),
        ) => Ok(
            DisplayPropertiesView {
                opacity: opacity as u8,
                position: (position.0 as i32, position.1 as i32),
                size: (size.0 as u32, size.1 as u32),
                auto_hide_duration: auto_hide_duration as u32,
                font_family,
                font_size: font_size as u32,
                algorithmic_spacing,
            },
        ),
        _ => Err(ErrorView::Json(invalid_display_properties_message())),
    }
}

/// Writes display properties as JSON.
pub fn encode_display_properties(p: &DisplayProperties) -> (r: JsonValue)
    ensures
        r@ == display_properties_json(p@),
{
    let mut members: Vec<(String, JsonValue)> = Vec::new();
    members.push((String::from_str("opacity"), JsonValue::Number(p.opacity as i64)));
    members.push(
        (String::from_str("position"), pair_value(p.position.0 as i64, p.position.1 as i64)),
    );
    members.push((String::from_str("size"), pair_value(p.size.0 as i64, p.size.1 as i64)));
    members.push(
        (String::from_str("auto_hide_duration"), JsonValue::Number(p.auto_hide_duration as i64)),
    );
    members.push((String::from_str("font_family"), JsonValue::String(p.font_family.clone())));
    members.push((String::from_str("font_size"), JsonValue::Number(p.font_size as i64)));
    members.push(
        (String::from_str("algorithmic_spacing"), JsonValue::Bool(p.algorithmic_spacing)),
    );
    proof {
        lemma_members_view(members@);
        assert(members_view(members@) =~= display_properties_json(p@)->Object_0);
    }
    JsonValue::Object(members)
}

/// Reads display properties from JSON.
pub fn decode_display_properties(value: &JsonValue) -> (r: Result<
    DisplayProperties,
    NotecognitoError,
>)
    ensures
        match r {
            Ok(p) => decoded_display_properties(value@) == Ok::<DisplayPropertiesView, ErrorView>(
                p@,
            ),
            Err(e) => decoded_display_properties(value@) == Err::<
                DisplayPropertiesView,
                ErrorView,
            >(e@),
        },
{
    let opacity = integer_member(value, "opacity", 0, 0xff);
    let position = pair_member(value, "position", -0x8000_0000, 0x7fff_ffff);
    let size = pair_member(value, "size", 0, 0xffff_ffff);
    let auto_hide_duration = integer_member(value, "auto_hide_duration", 0, 0xffff_ffff);
    let font_family = text_member(value, "font_family");
    let font_size = integer_member(value, "font_size", 0, 0xffff_ffff);
    let algorithmic_spacing = bool_member(value, "algorithmic_spacing");
    match (
        opacity,
        position,
        size,
        auto_hide_duration,
        font_family,
        font_size,
        algorithmic_spacing,
    ) {
        (
            Some(opacity),
            Some(position),
            Some(size),
            Some(auto_hide_duration),
            Some(font_family),
            Some(font_size),
            Some(algorithmic_spacing),
        ) => Ok(
            DisplayProperties {
                opacity: opacity as u8,
                position: (position.0 as i32, position.1 as i32),
                size: (size.0 as u32, size.1 as u32),
                auto_hide_duration: auto_hide_duration as u32,
                font_family: String::from_str(font_family),
                font_size: font_size as u32,
                algorithmic_spacing,
            },
        ),
        _ => Err(NotecognitoError::Json(String::from_str("invalid display properties"))),
    }
}

/// Display properties read back from their JSON form are what they were.
pub proof fn lemma_display_properties_round_trip(p: DisplayPropertiesView)
    ensures
        decoded_display_properties(display_properties_json(p)) == Ok::<
            DisplayPropertiesView,
            ErrorView,
        >(p),
{
    let json = display_properties_json(p);
    let members = json->Object_0;
    reveal_strlit("opacity");
    reveal_strlit("position");
    reveal_strlit("size");
    reveal_strlit("auto_hide_duration");
    reveal_strlit("font_family");
    reveal_strlit("font_size");
    reveal_strlit("algorithmic_spacing");
    assert("opacity"@.len() == 7);
    assert("position"@.len() == 8);
    assert("size"@.len() == 4);
    assert("auto_hide_duration"@.len() == 18);
    assert("font_family"@.len() == 11);
    assert("font_size"@.len() == 9);
    assert("algorithmic_spacing"@.len() == 19);
    lemma_member_at(members, 0);
    lemma_member_at(members, 1);
    lemma_member_at(members, 2);
    lemma_member_at(members, 3);
    lemma_member_at(members, 4);
    lemma_member_at(members, 5);
    lemma_member_at(members, 6);
}

/// An error of the codec as the JSON error it surfaces as: one that is a
/// JSON error already stays as it is, any other is carried as its text.
pub open spec fn as_json_error(error: ErrorView) -> ErrorView {
    match error {
        ErrorView::Json(m) => ErrorView::Json(m),
        other => ErrorView::Json(other.message()),
    }
}

fn json_error(error: NotecognitoError) -> (r: NotecognitoError)
    ensures
        r@ == as_json_error(error@),
{
    match error {
        NotecognitoError::Json(m) => NotecognitoError::Json(m),
        other => NotecognitoError::Json(other.to_string()),
    }
}

/// The text of the error for a value that is no notecard.
pub open spec fn invalid_notecard_message() -> Seq<char> {
    "invalid notecard"@
}

/// The JSON form of a notecard.
pub open spec fn notecard_json(n: NotecardView) -> JsonView {
    JsonView::Object(
        seq![("id"@, JsonView::Number(n.id as int)), ("content"@, JsonView::String(n.content))],
    )
}

/// The notecard that a JSON value denotes: an object with a number as `id`
/// and text as `content`. The number has to be one of the nine identifiers;
/// one that is not is refused with the text of the error for it.
pub open spec fn decoded_notecard(value: JsonView) -> Result<NotecardView, ErrorView> {
    match (integer_field(value, "id"@, 0, 0xff), text_field(value, "content"@)) {
        (Some(id), Some(content)) => if valid_id(id as u8) {
            Ok(NotecardView { id: id as u8, content })
        } else {
            Err(as_json_error(ErrorView::InvalidNotecardId(id as u8)))
        },
        _ => Err(ErrorView::Json(invalid_notecard_message())),
    }
}

/// Writes a notecard as JSON.
pub fn encode_notecard(n: &Notecard) -> (r: JsonValue)
    ensures
        r@ == notecard_json(n@),
{
    let mut members: Vec<(String, JsonValue)> = Vec::new();
    members.push((String::from_str("id"), JsonValue::Number(n.id.value() as i64)));
    members.push((String::from_str("content"), JsonValue::String(n.content.clone())));
    proof {
        lemma_members_view(members@);
        assert(members_view(members@) =~= notecard_json(n@)->Object_0);
    }
    JsonValue::Object(members)
}

/// Reads a notecard from JSON.
pub fn decode_notecard(value: &JsonValue) -> (r: Result<Notecard, NotecognitoError>)
    ensures
        match r {
            Ok(n) => decoded_notecard(value@) == Ok::<NotecardView, ErrorView>(n@),
            Err(e) => decoded_notecard(value@) == Err::<NotecardView, ErrorView>(e@),
        },
{
    let id = integer_member(value, "id", 0, 0xff);
    let content = text_member(value, "content");
    match (id, content) {
        (Some(id), Some(content)) => match NotecardId::new(id as u8) {
            Ok(id) => Ok(Notecard::new(id, String::from_str(content))),
            Err(e) => Err(json_error(e)),
        },
        _ => Err(NotecognitoError::Json(String::from_str("invalid notecard"))),
    }
}

/// A notecard read back from its JSON form is what it was.
pub proof fn lemma_notecard_round_trip(n: NotecardView)
    requires
        valid_id(n.id),
    ensures
        decoded_notecard(notecard_json(n)) == Ok::<NotecardView, ErrorView>(n),
{
    let members = notecard_json(n)->Object_0;
    reveal_strlit("id");
    reveal_strlit("content");
    assert("id"@.len() == 2);
    assert("content"@.len() == 7);
    lemma_member_at(members, 0);
    lemma_member_at(members, 1);
}

/// The text of the error for a value that is no modifier.
pub open spec fn invalid_modifier_message() -> Seq<char> {
    "invalid hotkey modifier"@
}

/// The JSON form of a list of modifiers: the array of their names.
pub open spec fn modifiers_json(modifiers: Seq<HotkeyModifier>) -> JsonView {
    JsonView::Array(
        Seq::new(modifiers.len(), |i: int| JsonView::String(modifier_name(modifiers[i]))),
    )
}

/// The modifier that a JSON value denotes: the text of its name.
pub open spec fn decoded_modifier(value: JsonView) -> Option<HotkeyModifier> {
    match value {
        JsonView::String(name) => named_modifier(name),
        _ => None,
    }
}

/// The modifiers that the elements of an array denote. One element that is
/// no name of a modifier fails the whole list.
pub open spec fn decoded_modifiers(values: Seq<JsonView>) -> Result<
    Seq<HotkeyModifier>,
    ErrorView,
>
    decreases values.len(),
{
    if values.len() == 0 {
        Ok(Seq::empty())
    } else {
        match decoded_modifiers(values.drop_last()) {
            Err(e) => Err(e),
            Ok(modifiers) => match decoded_modifier(values.last()) {
                Some(m) => Ok(modifiers.push(m)),
                None => Err(ErrorView::Json(invalid_modifier_message())),
            },
        }
    }
}

/// Writes a list of modifiers as JSON.
pub fn encode_modifiers(modifiers: &[HotkeyModifier]) -> (r: JsonValue)
    ensures
        r@ == modifiers_json(modifiers@),
{
    let mut names: Vec<JsonValue> = Vec::new();
    let mut i: usize = 0;
    while i < modifiers.len()
        invariant
            i <= modifiers.len(),
            names@.len() == i,
            forall|j: int|
                0 <= j < i ==> (#[trigger] names@[j])@ == JsonView::String(
                    modifier_name(modifiers@[j]),
                ),
        decreases modifiers.len() - i,
    {
        names.push(JsonValue::String(String::from_str(modifiers[i].name())));
        i = i + 1;
    }
    proof {
        lemma_values_view(names@);
        assert(values_view(names@) =~= modifiers_json(modifiers@)->Array_0);
    }
    JsonValue::Array(names)
}

/// Reads a list of modifiers from the elements of a JSON array.
pub fn decode_modifiers(values: &Vec<JsonValue>) -> (r: Result<
    Vec<HotkeyModifier>,
    NotecognitoError,
>)
    ensures
        match r {
            Ok(modifiers) => decoded_modifiers(values_view(values@)) == Ok::<
                Seq<HotkeyModifier>,
                ErrorView,
            >(modifiers@),
            Err(e) => decoded_modifiers(values_view(values@)) == Err::<
                Seq<HotkeyModifier>,
                ErrorView,
            >(e@),
        },
{
    let mut modifiers: Vec<HotkeyModifier> = Vec::new();
    let ghost all = values_view(values@);
    proof {
        lemma_values_view(values@);
    }
    let mut i: usize = 0;
    while i < values.len()
        invariant
            i <= values.len(),
            all == values_view(values@),
            all.len() == values.len(),
            forall|j: int| 0 <= j < values.len() ==> #[trigger] all[j] == values@[j]@,
            decoded_modifiers(all.subrange(0, i as int)) == Ok::<Seq<HotkeyModifier>, ErrorView>(
                modifiers@,
            ),
        decreases values.len() - i,
    {
        let ghost prefix = all.subrange(0, i + 1);
        proof {
            assert(prefix.drop_last() =~= all.subrange(0, i as int));
        }
        let found = match values[i].as_text() {
            Some(name) => HotkeyModifier::from_name(name),
            None => None,
        };
        match found {
            Some(m) => {
                modifiers.push(m);
            },
            None => {
                proof {
                    lemma_decoded_modifiers_prefix_fails(all, i + 1);
                }
                return Err(NotecognitoError::Json(String::from_str("invalid hotkey modifier")));
            },
        }
        i = i + 1;
    }
    assert(all.subrange(0, i as int) =~= all);
    Ok(modifiers)
}

/// Once a prefix of a list of modifiers fails, the whole list fails alike.
pub proof fn lemma_decoded_modifiers_prefix_fails(values: Seq<JsonView>, n: int)
    requires
        0 <= n <= values.len(),
        decoded_modifiers(values.subrange(0, n)) is Err,
    ensures
        decoded_modifiers(values) == decoded_modifiers(values.subrange(0, n)),
    decreases values.len(),
{
    if n == values.len() {
        assert(values.subrange(0, n) =~= values);
    } else {
        assert(values.drop_last().subrange(0, n) =~= values.subrange(0, n));
        lemma_decoded_modifiers_prefix_fails(values.drop_last(), n);
    }
}

/// Modifiers read back from their JSON form are what they were, in the same
/// order and with the same repeats.
pub proof fn lemma_modifiers_round_trip(modifiers: Seq<HotkeyModifier>)
    ensures
        decoded_modifiers(modifiers_json(modifiers)->Array_0) == Ok::<
            Seq<HotkeyModifier>,
            ErrorView,
        >(modifiers),
    decreases modifiers.len(),
{
    let values = modifiers_json(modifiers)->Array_0;
    if modifiers.len() == 0 {
        assert(modifiers =~= Seq::<HotkeyModifier>::empty());
    } else {
        lemma_modifiers_round_trip(modifiers.drop_last());
        assert(values.drop_last() =~= modifiers_json(modifiers.drop_last())->Array_0);
        lemma_modifier_name_round_trip(modifiers.last());
        assert(modifiers.drop_last().push(modifiers.last()) =~= modifiers);
    }
}

/// The members of the JSON form of a list of entries of notecards.
pub open spec fn entries_json(entries: Seq<(Seq<char>, NotecardView)>) -> Seq<
    (Seq<char>, JsonView),
> {
    Seq::new(entries.len(), |i: int| (entries[i].0, notecard_json(entries[i].1)))
}

/// The JSON form of the notecards: an object with one member for each
/// notecard, named by the decimal digit of the notecard.
pub open spec fn notecards_json(cards: Map<u8, NotecardView>) -> JsonView {
    JsonView::Object(entries_json(serialized_entries(cards)))
}

/// The entries of notecards that the members of an object denote, with the
/// names as they stand. One value that is no notecard fails the whole list.
pub open spec fn decoded_entries(members: Seq<(Seq<char>, JsonView)>) -> Result<
    Seq<(Seq<char>, NotecardView)>,
    ErrorView,
>
    decreases members.len(),
{
    if members.len() == 0 {
        Ok(Seq::empty())
    } else {
        match decoded_entries(members.drop_last()) {
            Err(e) => Err(e),
            Ok(entries) => match decoded_notecard(members.last().1) {
                Ok(n) => Ok(entries.push((members.last().0, n))),
                Err(e) => Err(e),
            },
        }
    }
}

/// The notecards that the members of an object denote: first every value is
/// read as a notecard, then every name as an identifier. A name that is no
/// identifier is refused with the text of the error for it.
pub open spec fn decoded_notecards(members: Seq<(Seq<char>, JsonView)>) -> Result<
    Map<u8, NotecardView>,
    ErrorView,
> {
    match decoded_entries(members) {
        Ok(entries) => match deserialized_entries(entries) {
            Ok(cards) => Ok(cards),
            Err(e) => Err(as_json_error(e)),
        },
        Err(e) => Err(e),
    }
}

/// Writes the notecards as JSON.
pub fn encode_notecards(notecards: &HashMap<u8, Notecard>) -> (r: JsonValue)
    ensures
        r@ == notecards_json(cards_view(notecards@)),
{
    let entries = serialize_notecards(notecards);
    let ghost wanted = entries_json(entries_view(entries@));
    let mut members: Vec<(String, JsonValue)> = Vec::new();
    let mut i: usize = 0;
    while i < entries.len()
        invariant
            i <= entries.len(),
            members@.len() == i,
            forall|j: int|
                0 <= j < i ==> (#[trigger] members@[j]).0@ == entries@[j].0@ && members@[j].1@
                    == notecard_json(entries@[j].1@),
        decreases entries.len() - i,
    {
        members.push((entries[i].0.clone(), encode_notecard(&entries[i].1)));
        i = i + 1;
    }
    proof {
        lemma_members_view(members@);
        assert(members_view(members@) =~= wanted);
    }
    JsonValue::Object(members)
}

/// Reads the notecards from the members of a JSON object.
pub fn decode_notecards(members: &Vec<(String, JsonValue)>) -> (r: Result<
    HashMap<u8, Notecard>,
    NotecognitoError,
>)
    ensures
        match r {
            Ok(cards) => decoded_notecards(members_view(members@)) == Ok::<
                Map<u8, NotecardView>,
                ErrorView,
            >(cards_view(cards@)),
            Err(e) => decoded_notecards(members_view(members@)) == Err::<
                Map<u8, NotecardView>,
                ErrorView,
            >(e@),
        },
{
    let mut entries: Vec<(String, Notecard)> = Vec::new();
    let ghost all = members_view(members@);
    proof {
        lemma_members_view(members@);
        assert(entries_view(entries@) =~= Seq::<(Seq<char>, NotecardView)>::empty());
    }
    let mut i: usize = 0;
    while i < members.len()
        invariant
            i <= members.len(),
            all == members_view(members@),
            all.len() == members.len(),
            forall|j: int|
                0 <= j < members.len() ==> #[trigger] all[j] == (
                    members@[j].0@,
                    members@[j].1@,
                ),
            decoded_entries(all.subrange(0, i as int)) == Ok::<
                Seq<(Seq<char>, NotecardView)>,
                ErrorView,
            >(entries_view(entries@)),
        decreases members.len() - i,
    {
        let ghost prefix = all.subrange(0, i + 1);
        let ghost before = entries_view(entries@);
        proof {
            assert(prefix.drop_last() =~= all.subrange(0, i as int));
        }
        match decode_notecard(&members[i].1) {
            Ok(n) => {
                entries.push((members[i].0.clone(), n));
                assert(entries_view(entries@) =~= before.push((members@[i as int].0@, n@)));
            },
            Err(e) => {
                proof {
                    lemma_decoded_entries_prefix_fails(all, i + 1);
                }
                return Err(e);
            },
        }
        i = i + 1;
    }
    assert(all.subrange(0, i as int) =~= all);
    match deserialize_notecards(&entries) {
        Ok(cards) => Ok(cards),
        Err(e) => Err(json_error(e)),
    }
}

/// Once a prefix of the members fails, the whole list fails alike.
pub proof fn lemma_decoded_entries_prefix_fails(members: Seq<(Seq<char>, JsonView)>, n: int)
    requires
        0 <= n <= members.len(),
        decoded_entries(members.subrange(0, n)) is Err,
    ensures
        decoded_entries(members) == decoded_entries(members.subrange(0, n)),
    decreases members.len(),
{
    if n == members.len() {
        assert(members.subrange(0, n) =~= members);
    } else {
        assert(members.drop_last().subrange(0, n) =~= members.subrange(0, n));
        lemma_decoded_entries_prefix_fails(members.drop_last(), n);
    }
}

/// Entries whose notecards have identifiers read back from their JSON form
/// as they were.
pub proof fn lemma_entries_round_trip(entries: Seq<(Seq<char>, NotecardView)>)
    requires
        forall|i: int| 0 <= i < entries.len() ==> valid_id((#[trigger] entries[i]).1.id),
    ensures
        decoded_entries(entries_json(entries)) == Ok::<
            Seq<(Seq<char>, NotecardView)>,
            ErrorView,
        >(entries),
    decreases entries.len(),
{
    if entries.len() == 0 {
        assert(entries =~= Seq::<(Seq<char>, NotecardView)>::empty());
    } else {
        lemma_entries_round_trip(entries.drop_last());
        assert(entries_json(entries).drop_last() =~= entries_json(entries.drop_last()));
        lemma_notecard_round_trip(entries.last().1);
        assert(entries.drop_last().push(entries.last()) =~= entries);
    }
}

/// Whether `card` is one of the notecards of `cards`.
pub open spec fn card_of(cards: Map<u8, NotecardView>, card: NotecardView) -> bool {
    exists|k: u8| cards.contains_key(k) && cards[k] == card
}

/// Every entry of the serialized form of a map of notecards holds a notecard
/// of the map.
pub proof fn lemma_serialized_entries_from_map(cards: Map<u8, NotecardView>, n: nat)
    requires
        n <= 9,
    ensures
        forall|i: int|
            0 <= i < entries_upto(cards, n).len() ==> card_of(
                cards,
                (#[trigger] entries_upto(cards, n)[i]).1,
            ),
    decreases n,
{
    let all = entries_upto(cards, n);
    if n == 0 {
        assert(all.len() == 0);
    } else {
        lemma_serialized_entries_from_map(cards, (n - 1) as nat);
        let rest = entries_upto(cards, (n - 1) as nat);
        assert forall|i: int| 0 <= i < all.len() implies card_of(cards, (#[trigger] all[i]).1) by {
            if i < rest.len() {
                assert(all[i] == rest[i]);
            } else {
                assert(cards.contains_key(n as u8) && cards[n as u8] == all[i].1);
            }
        }
    }
}

/// Whether the notecards are such as their JSON form can carry: every key
/// lies between 1 and 9 and every notecard has an identifier. This holds of
/// every configuration that was read from JSON and of every configuration
/// of a store.
pub open spec fn valid_cards(cards: Map<u8, NotecardView>) -> bool {
    keys_in_range(cards) && forall|k: u8| #[trigger]
        cards.contains_key(k) ==> valid_id(cards[k].id)
}

/// Notecards read back from their JSON form are what they were.
pub proof fn lemma_notecards_json_round_trip(cards: Map<u8, NotecardView>)
    requires
        valid_cards(cards),
    ensures
        decoded_notecards(notecards_json(cards)->Object_0) == Ok::<
            Map<u8, NotecardView>,
            ErrorView,
        >(cards),
{
    let entries = serialized_entries(cards);
    lemma_serialized_entries_from_map(cards, 9);
    assert forall|i: int| 0 <= i < entries.len() implies valid_id((#[trigger] entries[i]).1.id) by {
        assert(card_of(cards, entries[i].1));
        let k = choose|k: u8| cards.contains_key(k) && cards[k] == entries[i].1;
        assert(cards.contains_key(k));
    }
    lemma_entries_round_trip(entries);
    lemma_notecards_round_trip(cards);
}

/// The text of the error for a value that is no configuration.
pub open spec fn invalid_configuration_message() -> Seq<char> {
    "invalid configuration"@
}

/// The JSON form of a configuration.
pub open spec fn config_json(c: ConfigView) -> JsonView {
    JsonView::Object(
        seq![
            ("launch_on_startup"@, JsonView::Bool(c.launch_on_startup)),
            ("default_display_properties"@, display_properties_json(c.default_display_properties)),
            ("hotkey_modifiers"@, modifiers_json(c.hotkey_modifiers)),
            ("notecards"@, notecards_json(c.notecards)),
        ],
    )
}

/// The configuration that a JSON value denotes: an object with the four
/// fields of a configuration. The fields are read in the order in which the
/// structure declares them, and the first that fails gives the error.
pub open spec fn decoded_config(value: JsonView) -> Result<ConfigView, ErrorView> {
    let invalid = Err::<ConfigView, ErrorView>(ErrorView::Json(invalid_configuration_message()));
    match bool_field(value, "launch_on_startup"@) {
        None => invalid,
        Some(launch_on_startup) => match field(value, "default_display_properties"@) {
            None => invalid,
            Some(properties) => match decoded_display_properties(properties) {
                Err(e) => Err(e),
                Ok(default_display_properties) => match field(value, "hotkey_modifiers"@) {
                    Some(JsonView::Array(names)) => match decoded_modifiers(names) {
                        Err(e) => Err(e),
                        Ok(hotkey_modifiers) => match field(value, "notecards"@) {
                            Some(JsonView::Object(members)) => match decoded_notecards(members) {
                                Err(e) => Err(e),
                                Ok(notecards) => Ok(
                                    ConfigView {
                                        launch_on_startup,
                                        default_display_properties,
                                        hotkey_modifiers,
                                        notecards,
                                    },
                                ),
                            },
                            _ => invalid,
                        },
                    },
                    _ => invalid,
                },
            },
        },
    }
}

fn invalid_configuration() -> (e: NotecognitoError)
    ensures
        e@ == ErrorView::Json(invalid_configuration_message()),
{
    NotecognitoError::Json(String::from_str("invalid configuration"))
}

/// Writes a configuration as JSON.
pub fn encode_config(c: &Config) -> (r: JsonValue)
    ensures
        r@ == config_json(c@),
{
    let mut members: Vec<(String, JsonValue)> = Vec::new();
    members.push((String::from_str("launch_on_startup"), JsonValue::Bool(c.launch_on_startup)));
    members.push(
        (
            String::from_str("default_display_properties"),
            encode_display_properties(&c.default_display_properties),
        ),
    );
    members.push(
        (String::from_str("hotkey_modifiers"), encode_modifiers(c.hotkey_modifiers.as_slice())),
    );
    members.push((String::from_str("notecards"), encode_notecards(&c.notecards)));
    proof {
        lemma_members_view(members@);
        assert(members_view(members@) =~= config_json(c@)->Object_0);
    }
    JsonValue::Object(members)
}

/// Reads a configuration from JSON.
pub fn decode_config(value: &JsonValue) -> (r: Result<Config, NotecognitoError>)
    ensures
        match r {
            Ok(c) => decoded_config(value@) == Ok::<ConfigView, ErrorView>(c@),
            Err(e) => decoded_config(value@) == Err::<ConfigView, ErrorView>(e@),
        },
{
    let launch_on_startup = match bool_member(value, "launch_on_startup") {
        Some(b) => b,
        None => {
            return Err(invalid_configuration());
        },
    };
    let default_display_properties = match value.get("default_display_properties") {
        Some(properties) => match decode_display_properties(properties) {
            Ok(p) => p,
            Err(e) => {
                return Err(e);
            },
        },
        None => {
            return Err(invalid_configuration());
        },
    };
    let hotkey_modifiers = match value.get("hotkey_modifiers") {
        Some(JsonValue::Array(names)) => match decode_modifiers(names) {
            Ok(m) => m,
            Err(e) => {
                return Err(e);
            },
        },
        _ => {
            return Err(invalid_configuration());
        },
    };
    let notecards = match value.get("notecards") {
        Some(JsonValue::Object(members)) => match decode_notecards(members) {
            Ok(n) => n,
            Err(e) => {
                return Err(e);
            },
        },
        _ => {
            return Err(invalid_configuration());
        },
    };
    Ok(Config { launch_on_startup, default_display_properties, hotkey_modifiers, notecards })
}

/// A configuration read back from its JSON form is what it was: the same
/// flag, properties and notecards, and the same modifiers in the same order.
pub proof fn lemma_config_round_trip(c: ConfigView)
    requires
        valid_cards(c.notecards),
    ensures
        decoded_config(config_json(c)) == Ok::<ConfigView, ErrorView>(c),
{
    let members = config_json(c)->Object_0;
    reveal_strlit("launch_on_startup");
    reveal_strlit("default_display_properties");
    reveal_strlit("hotkey_modifiers");
    reveal_strlit("notecards");
    assert("launch_on_startup"@.len() == 17);
    assert("default_display_properties"@.len() == 26);
    assert("hotkey_modifiers"@.len() == 16);
    assert("notecards"@.len() == 9);
    lemma_member_at(members, 0);
    lemma_member_at(members, 1);
    lemma_member_at(members, 2);
    lemma_member_at(members, 3);
    lemma_display_properties_round_trip(c.default_display_properties);
    lemma_modifiers_round_trip(c.hotkey_modifiers);
    lemma_notecards_json_round_trip(c.notecards);
}

/// A configuration that went through JSON and one that did not make the
/// same store: the store fills in a missing notecard in both alike.
pub proof fn lemma_config_round_trip_normalized(c: ConfigView)
    requires
        valid_cards(c.notecards),
    ensures
        decoded_config(config_json(c)) matches Ok(d) && d.normalized() == c.normalized(),
{
    lemma_config_round_trip(c);
}

/// Whatever is wrong with a value that is read as modifiers, the error is a
/// JSON error.
pub proof fn lemma_decoded_modifiers_error(values: Seq<JsonView>)
    ensures
        decoded_modifiers(values) matches Err(e) ==> e is Json,
    decreases values.len(),
{
    if values.len() > 0 {
        lemma_decoded_modifiers_error(values.drop_last());
    }
}

/// Whatever is wrong with members that are read as notecards, the error is
/// a JSON error.
pub proof fn lemma_decoded_entries_error(members: Seq<(Seq<char>, JsonView)>)
    ensures
        decoded_entries(members) matches Err(e) ==> e is Json,
    decreases members.len(),
{
    if members.len() > 0 {
        lemma_decoded_entries_error(members.drop_last());
    }
}

/// Whatever is wrong with a value that is read as a configuration, the error
/// is a JSON error.
pub proof fn lemma_decoded_config_error(value: JsonView)
    ensures
        decoded_config(value) matches Err(e) ==> e is Json,
{
    match field(value, "hotkey_modifiers"@) {
        Some(JsonView::Array(names)) => {
            lemma_decoded_modifiers_error(names);
        },
        _ => {},
    }
    match field(value, "notecards"@) {
        Some(JsonView::Object(members)) => {
            lemma_decoded_entries_error(members);
        },
        _ => {},
    }
}

/// What loading makes of what the configuration file holds: without a file
/// the configuration of a fresh installation; else the configuration that
/// the JSON value denotes, normalized, unless a notecard in it is too long.
pub open spec fn loaded(stored: Option<JsonView>) -> Result<ConfigView, ErrorView> {
    match stored {
        None => Ok(ConfigView::default_value()),
        Some(json) => match decoded_config(json) {
            Err(e) => Err(e),
            Ok(c) => if c.cards_fit() {
                Ok(c.normalized())
            } else {
                Err(ErrorView::Config(content_too_long_message()))
            },
        },
    }
}

/// The store for the file at `path`, given the JSON value that the file
/// holds, if there is a file.
pub fn load_or_default(path: String, stored: Option<&JsonValue>) -> (r: Result<
    ConfigManager,
    NotecognitoError,
>)
    ensures
        match r {
            Ok(m) => m.path() == path@ && m@.well_formed() && loaded(
                match stored {
                    Some(json) => Some(json@),
                    None => None,
                },
            ) == Ok::<ConfigView, ErrorView>(m@),
            Err(e) => loaded(
                match stored {
                    Some(json) => Some(json@),
                    None => None,
                },
            ) == Err::<ConfigView, ErrorView>(e@),
        },
{
    let config = match stored {
        Some(json) => match decode_config(json) {
            Ok(c) => Some(c),
            Err(e) => {
                return Err(e);
            },
        },
        None => None,
    };
    ConfigManager::with_path(path, config)
}

/// The JSON value that saving writes to the configuration file.
pub fn saved_config(manager: &ConfigManager) -> (r: JsonValue)
    ensures
        r@ == config_json(manager@),
{
    encode_config(manager.config())
}

/// Loading what was saved gives the configuration that was saved.
pub proof fn lemma_saved_config_loads_back(store: ConfigView)
    requires
        store.well_formed(),
    ensures
        loaded(Some(config_json(store))) == Ok::<ConfigView, ErrorView>(store),
{
    lemma_config_round_trip(store);
    lemma_well_formed_is_normalized(store);
}

/// The tag of a kind of message.
pub open spec fn message_tag(message_type: IpcMessageTypeView) -> Seq<char> {
    match message_type {
        IpcMessageTypeView::GetConfiguration => "GetConfiguration"@,
        IpcMessageTypeView::UpdateNotecard { .. } => "UpdateNotecard"@,
        IpcMessageTypeView::SaveConfiguration { .. } => "SaveConfiguration"@,
        IpcMessageTypeView::ConfigurationResponse { .. } => "ConfigurationResponse"@,
        IpcMessageTypeView::Success { .. } => "Success"@,
        IpcMessageTypeView::Error { .. } => "Error"@,
    }
}

/// The members that a kind of message adds to the id and the tag.
pub open spec fn payload_members(message_type: IpcMessageTypeView) -> Seq<(Seq<char>, JsonView)> {
    match message_type {
        IpcMessageTypeView::GetConfiguration => Seq::empty(),
        IpcMessageTypeView::UpdateNotecard { notecard } => seq![
            ("notecard"@, notecard_json(notecard)),
        ],
        IpcMessageTypeView::SaveConfiguration { config } => seq![("config"@, config_json(config))],
        IpcMessageTypeView::ConfigurationResponse { config } => seq![
            ("config"@, config_json(config)),
        ],
        IpcMessageTypeView::Success { message } => seq![("message"@, JsonView::String(message))],
        IpcMessageTypeView::Error { message } => seq![("message"@, JsonView::String(message))],
    }
}

/// The JSON form of a message: an object with the id, the tag under `type`,
/// and the fields of the kind beside them.
pub open spec fn message_json(m: IpcMessageView) -> JsonView {
    JsonView::Object(
        seq![
            ("id"@, JsonView::String(m.id)),
            ("type"@, JsonView::String(message_tag(m.message_type))),
        ] + payload_members(m.message_type),
    )
}

/// The member `name` of `value` as a notecard.
pub open spec fn notecard_field(value: JsonView, name: Seq<char>) -> Option<NotecardView> {
    match field(value, name) {
        Some(v) => match decoded_notecard(v) {
            Ok(n) => Some(n),
            Err(_) => None,
        },
        None => None,
    }
}

/// The member `name` of `value` as a configuration.
pub open spec fn config_field(value: JsonView, name: Seq<char>) -> Option<ConfigView> {
    match field(value, name) {
        Some(v) => match decoded_config(v) {
            Ok(c) => Some(c),
            Err(_) => None,
        },
        None => None,
    }
}

/// What a message of the given tag asks or answers, read from the members
/// beside the tag. None where the tag is unknown or a field of the kind is
/// missing or wrong.
pub open spec fn decoded_payload(value: JsonView, tag: Seq<char>) -> Option<IpcMessageTypeView> {
    if tag == "GetConfiguration"@ {
        Some(IpcMessageTypeView::GetConfiguration)
    } else if tag == "UpdateNotecard"@ {
        match notecard_field(value, "notecard"@) {
            Some(notecard) => Some(IpcMessageTypeView::UpdateNotecard { notecard }),
            None => None,
        }
    } else if tag == "SaveConfiguration"@ {
        match config_field(value, "config"@) {
            Some(config) => Some(IpcMessageTypeView::SaveConfiguration { config }),
            None => None,
        }
    } else if tag == "ConfigurationResponse"@ {
        match config_field(value, "config"@) {
            Some(config) => Some(IpcMessageTypeView::ConfigurationResponse { config }),
            None => None,
        }
    } else if tag == "Success"@ {
        match text_field(value, "message"@) {
            Some(message) => Some(IpcMessageTypeView::Success { message }),
            None => None,
        }
    } else if tag == "Error"@ {
        match text_field(value, "message"@) {
            Some(message) => Some(IpcMessageTypeView::Error { message }),
            None => None,
        }
    } else {
        None
    }
}

/// The message that a JSON value denotes. Whatever is wrong with the value,
/// the error is that of an invalid message.
pub open spec fn decoded_message(value: JsonView) -> Result<IpcMessageView, ErrorView> {
    match (text_field(value, "id"@), text_field(value, "type"@)) {
        (Some(id), Some(tag)) => match decoded_payload(value, tag) {
            Some(message_type) => Ok(IpcMessageView { id, message_type }),
            None => Err(ErrorView::InvalidMessage),
        },
        _ => Err(ErrorView::InvalidMessage),
    }
}

fn tag_of(message_type: &IpcMessageType) -> (r: &'static str)
    ensures
        r@ == message_tag(message_type@),
{
    match message_type {
        IpcMessageType::GetConfiguration => "GetConfiguration",
        IpcMessageType::UpdateNotecard { .. } => "UpdateNotecard",
        IpcMessageType::SaveConfiguration { .. } => "SaveConfiguration",
        IpcMessageType::ConfigurationResponse { .. } => "ConfigurationResponse",
        IpcMessageType::Success { .. } => "Success",
        IpcMessageType::Error { .. } => "Error",
    }
}

/// Writes a message as JSON.
pub fn encode_message(m: &IpcMessage) -> (r: JsonValue)
    ensures
        r@ == message_json(m@),
{
    let mut members: Vec<(String, JsonValue)> = Vec::new();
    members.push((String::from_str("id"), JsonValue::String(m.id.clone())));
    members.push(
        (String::from_str("type"), JsonValue::String(String::from_str(tag_of(&m.message_type)))),
    );
    match &m.message_type {
        IpcMessageType::GetConfiguration => {},
        IpcMessageType::UpdateNotecard { notecard } => {
            members.push((String::from_str("notecard"), encode_notecard(notecard)));
        },
        IpcMessageType::SaveConfiguration { config } => {
            members.push((String::from_str("config"), encode_config(config)));
        },
        IpcMessageType::ConfigurationResponse { config } => {
            members.push((String::from_str("config"), encode_config(config)));
        },
        IpcMessageType::Success { message } => {
            members.push((String::from_str("message"), JsonValue::String(message.clone())));
        },
        IpcMessageType::Error { message } => {
            members.push((String::from_str("message"), JsonValue::String(message.clone())));
        },
    }
    proof {
        lemma_members_view(members@);
        assert(members_view(members@) =~= message_json(m@)->Object_0);
    }
    JsonValue::Object(members)
}

fn notecard_member(value: &JsonValue, name: &str) -> (r: Option<Notecard>)
    ensures
        match r {
            Some(n) => notecard_field(value@, name@) == Some(n@),
            None => notecard_field(value@, name@) is None,
        },
{
    match value.get(name) {
        Some(v) => match decode_notecard(v) {
            Ok(n) => Some(n),
            Err(_) => None,
        },
        None => None,
    }
}

fn config_member(value: &JsonValue, name: &str) -> (r: Option<Config>)
    ensures
        match r {
            Some(c) => config_field(value@, name@) == Some(c@),
            None => config_field(value@, name@) is None,
        },
{
    match value.get(name) {
        Some(v) => match decode_config(v) {
            Ok(c) => Some(c),
            Err(_) => None,
        },
        None => None,
    }
}

fn decode_payload(value: &JsonValue, tag: &str) -> (r: Option<IpcMessageType>)
    ensures
        match r {
            Some(t) => decoded_payload(value@, tag@) == Some(t@),
            None => decoded_payload(value@, tag@) is None,
        },
{
    if same_text(tag, "GetConfiguration") {
        Some(IpcMessageType::GetConfiguration)
    } else if same_text(tag, "UpdateNotecard") {
        match notecard_member(value, "notecard") {
            Some(notecard) => Some(IpcMessageType::UpdateNotecard { notecard }),
            None => None,
        }
    } else if same_text(tag, "SaveConfiguration") {
        match config_member(value, "config") {
            Some(config) => Some(IpcMessageType::SaveConfiguration { config }),
            None => None,
        }
    } else if same_text(tag, "ConfigurationResponse") {
        match config_member(value, "config") {
            Some(config) => Some(IpcMessageType::ConfigurationResponse { config }),
            None => None,
        }
    } else if same_text(tag, "Success") {
        match text_member(value, "message") {
            Some(message) => Some(IpcMessageType::Success { message: String::from_str(message) }),
            None => None,
        }
    } else if same_text(tag, "Error") {
        match text_member(value, "message") {
            Some(message) => Some(IpcMessageType::Error { message: String::from_str(message) }),
            None => None,
        }
    } else {
        None
    }
}

/// Reads a message from JSON.
pub fn decode_message(value: &JsonValue) -> (r: Result<IpcMessage, NotecognitoError>)
    ensures
        match r {
            Ok(m) => decoded_message(value@) == Ok::<IpcMessageView, ErrorView>(m@),
            Err(e) => decoded_message(value@) == Err::<IpcMessageView, ErrorView>(e@),
        },
{
    let id = text_member(value, "id");
    let tag = text_member(value, "type");
    match (id, tag) {
        (Some(id), Some(tag)) => match decode_payload(value, tag) {
            Some(message_type) => Ok(IpcMessage::with_id(String::from_str(id), message_type)),
            None => Err(NotecognitoError::InvalidMessage),
        },
        _ => Err(NotecognitoError::InvalidMessage),
    }
}

/// Whether the notecards of a message are such as its JSON form can carry:
/// every key lies between 1 and 9 and every notecard has an identifier.
pub open spec fn valid_message(m: IpcMessageView) -> bool {
    match m.message_type {
        IpcMessageTypeView::UpdateNotecard { notecard } => valid_id(notecard.id),
        IpcMessageTypeView::SaveConfiguration { config } => valid_cards(config.notecards),
        IpcMessageTypeView::ConfigurationResponse { config } => valid_cards(config.notecards),
        _ => true,
    }
}

/// A message read back from its JSON form is what it was.
pub proof fn lemma_message_round_trip(m: IpcMessageView)
    requires
        valid_message(m),
    ensures
        decoded_message(message_json(m)) == Ok::<IpcMessageView, ErrorView>(m),
{
    let members = message_json(m)->Object_0;
    reveal_strlit("id");
    reveal_strlit("type");
    reveal_strlit("notecard");
    reveal_strlit("config");
    reveal_strlit("message");
    reveal_strlit("GetConfiguration");
    reveal_strlit("UpdateNotecard");
    reveal_strlit("SaveConfiguration");
    reveal_strlit("ConfigurationResponse");
    reveal_strlit("Success");
    reveal_strlit("Error");
    assert("id"@.len() == 2);
    assert("type"@.len() == 4);
    assert("notecard"@.len() == 8);
    assert("config"@.len() == 6);
    assert("message"@.len() == 7);
    assert("GetConfiguration"@.len() == 16);
    assert("UpdateNotecard"@.len() == 14);
    assert("SaveConfiguration"@.len() == 17);
    assert("ConfigurationResponse"@.len() == 21);
    assert("Success"@.len() == 7);
    assert("Error"@.len() == 5);
    lemma_member_at(members, 0);
    lemma_member_at(members, 1);
    match m.message_type {
        IpcMessageTypeView::GetConfiguration => {},
        IpcMessageTypeView::UpdateNotecard { notecard } => {
            lemma_member_at(members, 2);
            lemma_notecard_round_trip(notecard);
        },
        IpcMessageTypeView::SaveConfiguration { config } => {
            lemma_member_at(members, 2);
            lemma_config_round_trip(config);
        },
        IpcMessageTypeView::ConfigurationResponse { config } => {
            lemma_member_at(members, 2);
            lemma_config_round_trip(config);
        },
        IpcMessageTypeView::Success { message } => {
            lemma_member_at(members, 2);
        },
        IpcMessageTypeView::Error { message } => {
            lemma_member_at(members, 2);
        },
    }
}

/// Whatever JSON value a request was read from, the id that a client finds
/// in the JSON form of a message with the id of the request is the id that
/// stands in the request.
pub proof fn lemma_id_survives(request: JsonView, answer: IpcMessageView)
    requires
        decoded_message(request) matches Ok(m) && answer.id == m.id,
    ensures
        text_field(message_json(answer), "id"@) == text_field(request, "id"@),
{
    let members = message_json(answer)->Object_0;
    reveal_strlit("id");
    reveal_strlit("type");
    reveal_strlit("notecard");
    reveal_strlit("config");
    reveal_strlit("message");
    assert("id"@.len() == 2);
    assert("type"@.len() == 4);
    assert("notecard"@.len() == 8);
    assert("config"@.len() == 6);
    assert("message"@.len() == 7);
    lemma_member_at(members, 0);
}

} // verus!
