//! Notecard identifiers and notecards.

use crate::error::{ErrorView, NotecognitoError};
use crate::text::{digit_char, digit_str};
use std::cmp::Ordering;
use vstd::prelude::*;
use vstd::std_specs::cmp::PartialOrdSpecImpl;
use vstd::std_specs::convert::TryFromSpecImpl;
use vstd::string::StringExecFns;
use vstd::utf8::encode_utf8;

verus! {

/// The longest content a notecard may hold, in bytes of UTF-8.
pub const MAX_CONTENT_LENGTH: usize = 10000;

/// Whether `value` names one of the nine notecards.
pub open spec fn valid_id(value: u8) -> bool {
    1 <= value <= 9
}

/// The byte nearest to an integer: the integer itself from 0 to 255, 0 for
/// a negative one, 255 for a greater one.
pub open spec fn nearest_byte(value: int) -> u8 {
    if value < 0 {
        0
    } else if value > 255 {
        255
    } else {
        value as u8
    }
}

/// The text of the error for content longer than [`MAX_CONTENT_LENGTH`].
pub open spec fn content_too_long_message() -> Seq<char> {
    "Notecard content exceeds maximum length of 10000 characters"@
}

/// The identifier of a notecard: a number from 1 to 9.
#[derive(Debug, Clone, Copy, PartialEq, Eq, Hash, Ord, Structural)]
pub struct NotecardId(u8);

impl View for NotecardId {
    type V = u8;

    closed spec fn view(&self) -> u8 {
        self.0
    }
}

impl NotecardId {
    #[verifier::type_invariant]
    spec fn in_range(self) -> bool {
        valid_id(self.0)
    }

    /// Accepts the numbers 1 to 9 and refuses every other.
    pub fn new(id: u8) -> (r: Result<Self, NotecognitoError>)
        ensures
            match r {
                Ok(n) => valid_id(id) && n@ == id,
                Err(e) => !valid_id(id) && e@ == ErrorView::InvalidNotecardId(id),
            },
    {
        if id >= 1 && id <= 9 {
            Ok(NotecardId(id))
        } else {
            Err(NotecognitoError::InvalidNotecardId(id))
        }
    }

    /// The identifier for an integer as a caller outside Rust hands it over.
    /// Only the integers 1 to 9 are identifiers: an integer is never cut down
    /// to a byte first. The error names the integer where a byte can hold
    /// it, else the nearest byte.
    pub fn from_int(value: i32) -> (r: Result<Self, NotecognitoError>)
        ensures
            r is Ok <==> 1 <= value <= 9,
            match r {
                Ok(n) => n@ == value,
                Err(e) => e@ == ErrorView::InvalidNotecardId(nearest_byte(value as int)),
            },
    {
        if value < 0 {
            Err(NotecognitoError::InvalidNotecardId(0))
        } else if value > 255 {
            Err(NotecognitoError::InvalidNotecardId(255))
        } else {
            NotecardId::new(value as u8)
        }
    }

    /// The identifier with a number that is known to lie between 1 and 9.
    pub(crate) fn from_valid(value: u8) -> (id: Self)
        requires
            valid_id(value),
        ensures
            id@ == value,
    {
        NotecardId(value)
    }

    /// The number of the notecard.
    pub fn value(&self) -> (v: u8)
        ensures
            v == self@,
            valid_id(v),
    {
        proof {
            use_type_invariant(self);
        }
        self.0
    }

    /// The identifier as its decimal digit.
    pub fn to_string(&self) -> (s: String)
        ensures
            s@ == seq![digit_char(self@ as nat)],
    {
        String::from_str(digit_str(self.value()))
    }
}

/// Identifiers are equal exactly when their numbers are.
pub proof fn lemma_equal_by_number(a: NotecardId, b: NotecardId)
    ensures
        a == b <==> a@ == b@,
{
}

/// How two numbers compare.
pub open spec fn compared(a: u8, b: u8) -> Ordering {
    if a < b {
        Ordering::Less
    } else if a == b {
        Ordering::Equal
    } else {
        Ordering::Greater
    }
}

impl PartialOrd for NotecardId {
    /// Identifiers are ordered by their numbers.
    fn partial_cmp(&self, other: &Self) -> (r: Option<Ordering>)
        ensures
            r == Some(compared(self@, other@)),
    {
        if self.0 < other.0 {
            Some(Ordering::Less)
        } else if self.0 == other.0 {
            Some(Ordering::Equal)
        } else {
            Some(Ordering::Greater)
        }
    }
}

impl PartialOrdSpecImpl for NotecardId {
    open spec fn obeys_partial_cmp_spec() -> bool {
        true
    }

    open spec fn partial_cmp_spec(&self, other: &Self) -> Option<Ordering> {
        Some(compared(self@, other@))
    }
}

impl TryFrom<u8> for NotecardId {
    type Error = NotecognitoError;

    fn try_from(value: u8) -> (r: Result<Self, NotecognitoError>)
        ensures
            match r {
                Ok(n) => valid_id(value) && n@ == value,
                Err(e) => !valid_id(value) && e@ == ErrorView::InvalidNotecardId(value),
            },
    {
        NotecardId::new(value)
    }
}

impl TryFromSpecImpl<u8> for NotecardId {
    open spec fn obeys_try_from_spec() -> bool {
        true
    }

    closed spec fn try_from_spec(v: u8) -> Result<Self, NotecognitoError> {
        if valid_id(v) {
            Ok(NotecardId(v))
        } else {
            Err(NotecognitoError::InvalidNotecardId(v))
        }
    }
}

/// One notecard: its identifier and its text.
#[derive(Debug, PartialEq, Eq)]
pub struct Notecard {
    /// Which of the nine notecards this is.
    pub id: NotecardId,
    /// The text shown in the overlay; may span several lines.
    pub content: String,
}

/// The mathematical value of a [`Notecard`].
pub struct NotecardView {
    pub id: u8,
    pub content: Seq<char>,
}

impl NotecardView {
    /// The empty notecard under `id`.
    pub open spec fn empty(id: u8) -> NotecardView {
        NotecardView { id, content: Seq::empty() }
    }

    /// The length of the content, in bytes of UTF-8.
    pub open spec fn content_len(self) -> nat {
        encode_utf8(self.content).len()
    }

    /// Whether the content respects the length bound.
    pub open spec fn fits(self) -> bool {
        self.content_len() <= MAX_CONTENT_LENGTH
    }

    /// A notecard is empty when its content has no characters.
    pub open spec fn is_empty(self) -> bool {
        self.content.len() == 0
    }
}

impl View for Notecard {
    type V = NotecardView;

    open spec fn view(&self) -> NotecardView {
        NotecardView { id: self.id@, content: self.content@ }
    }
}

impl Clone for Notecard {
    fn clone(&self) -> (r: Self)
        ensures
            r == *self,
    {
        Notecard { id: self.id, content: self.content.clone() }
    }
}

impl Notecard {
    /// A notecard with the given content.
    pub fn new(id: NotecardId, content: String) -> (r: Self)
        ensures
            r.id == id,
            r.content == content,
    {
        Notecard { id, content }
    }

    /// The notecard under `id` with no content.
    pub fn empty(id: NotecardId) -> (r: Self)
        ensures
            r.id == id,
            r@ == NotecardView::empty(id@),
    {
        Notecard { id, content: String::new() }
    }

    /// Whether the notecard has no content.
    pub fn is_empty(&self) -> (r: bool)
        ensures
            r == self@.is_empty(),
    {
        self.content.as_str().is_empty()
    }

    /// Accepts content of at most [`MAX_CONTENT_LENGTH`] bytes.
    pub fn validate(&self) -> (r: Result<(), NotecognitoError>)
        ensures
            match r {
                Ok(()) => self@.fits(),
                Err(e) => !self@.fits() && e@ == ErrorView::Config(content_too_long_message()),
            },
    {
        if self.content.as_str().as_bytes().len() > MAX_CONTENT_LENGTH {
            return Err(
                NotecognitoError::Config(
                    String::from_str("Notecard content exceeds maximum length of 10000 characters"),
                ),
            );
        }
        Ok(())
    }
}

} // verus!
