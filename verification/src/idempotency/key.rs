//! The validated idempotency key.

use crate::trusted::hyphenated_uuid;
use crate::trusted::random_uuid;
use crate::trusted::uuid_text;
use vstd::prelude::*;
use vstd::string::StrSliceExecFns;

verus! {

/// The largest number of characters an idempotency key may have.
pub const MAX_KEY_CHARS: usize = 50;

/// Whether `raw` is acceptable as an idempotency key: between one and
/// [`MAX_KEY_CHARS`] characters, with no constraint on the characters.
pub open spec fn is_valid_key(raw: Seq<char>) -> bool {
    1 <= raw.len() <= MAX_KEY_CHARS
}

/// Why a string was rejected as an idempotency key.
#[derive(Clone, Copy, Debug, PartialEq, Eq, Structural)]
pub enum KeyError {
    /// The string had no characters.
    Empty,
    /// The string had more than [`MAX_KEY_CHARS`] characters.
    TooLong,
}

impl KeyError {
    /// The rejection in words.
    pub fn message(&self) -> (res: String)
        ensures
            res@ == match *self {
                KeyError::Empty => "the idempotency key cannot be empty"@,
                KeyError::TooLong => "the idempotency key must be shorter than 50 characters"@,
            },
    {
        match self {
            KeyError::Empty => "the idempotency key cannot be empty".to_string(),
            KeyError::TooLong => "the idempotency key must be shorter than 50 characters".to_string(),
        }
    }
}

/// An opaque, case-sensitive token that identifies one logical publish
/// attempt.
#[derive(Debug)]
pub struct IdempotencyKey(String);

impl View for IdempotencyKey {
    type V = Seq<char>;

    closed spec fn view(&self) -> Seq<char> {
        self.0@
    }
}

impl IdempotencyKey {
    #[verifier::type_invariant]
    spec fn well_formed(self) -> bool {
        is_valid_key(self.0@)
    }

    /// Accepts `raw` unchanged when it has between one and fifty
    /// characters, and says which bound was broken otherwise. The key is
    /// not trimmed, folded or changed in any other way.
    pub fn parse(raw: String) -> (res: Result<IdempotencyKey, KeyError>)
        ensures
            match res {
                Ok(key) => is_valid_key(raw@) && key@ == raw@,
                Err(KeyError::Empty) => raw@.len() == 0,
                Err(KeyError::TooLong) => raw@.len() > MAX_KEY_CHARS,
            },
    {
        IdempotencyKey::try_from(raw)
    }

    /// A fresh key for a form that is about to be shown: the text of a
    /// random identifier, whichever is drawn.
    pub fn generate() -> (res: IdempotencyKey)
        ensures
            exists|id: u128| res@ == #[trigger] hyphenated_uuid(id),
            is_valid_key(res@),
    {
        let id = random_uuid();
        IdempotencyKey(uuid_text(id))
    }

    /// The characters of the key.
    pub fn as_str(&self) -> (res: &str)
        ensures
            res@ == self@,
            is_valid_key(self@),
    {
        proof {
            use_type_invariant(self);
        }
        self.0.as_str()
    }

    /// The key as an owned string, borrowed.
    pub fn as_string(&self) -> (res: &String)
        ensures
            res@ == self@,
            is_valid_key(self@),
    {
        proof {
            use_type_invariant(self);
        }
        &self.0
    }
}

impl TryFrom<String> for IdempotencyKey {
    type Error = KeyError;

    /// Accepts `raw` unchanged when it has between one and fifty
    /// characters, and says which bound was broken otherwise.
    fn try_from(raw: String) -> (res: Result<IdempotencyKey, KeyError>)
        ensures
            match res {
                Ok(key) => is_valid_key(raw@) && key@ == raw@,
                Err(KeyError::Empty) => raw@.len() == 0,
                Err(KeyError::TooLong) => raw@.len() > MAX_KEY_CHARS,
            },
    {
        let n: usize = raw.as_str().unicode_len();
        if n == 0 {
            Err(KeyError::Empty)
        } else if n > MAX_KEY_CHARS {
            Err(KeyError::TooLong)
        } else {
            Ok(IdempotencyKey(raw))
        }
    }
}

impl vstd::std_specs::convert::TryFromSpecImpl<String> for IdempotencyKey {
    open spec fn obeys_try_from_spec() -> bool {
        true
    }

    closed spec fn try_from_spec(raw: String) -> Result<IdempotencyKey, KeyError> {
        if raw@.len() == 0 {
            Err(KeyError::Empty)
        } else if raw@.len() > MAX_KEY_CHARS {
            Err(KeyError::TooLong)
        } else {
            Ok(IdempotencyKey(raw))
        }
    }
}

impl From<IdempotencyKey> for String {
    /// The string that the key was made of.
    fn from(key: IdempotencyKey) -> (res: String)
        ensures
            res@ == key@,
            is_valid_key(res@),
    {
        proof {
            use_type_invariant(&key);
        }
        key.0
    }
}

impl vstd::std_specs::convert::FromSpecImpl<IdempotencyKey> for String {
    open spec fn obeys_from_spec() -> bool {
        true
    }

    closed spec fn from_spec(key: IdempotencyKey) -> String {
        key.0
    }
}

impl AsRef<str> for IdempotencyKey {
    fn as_ref(&self) -> (res: &str)
        ensures
            res@ == self@,
            is_valid_key(self@),
    {
        self.as_str()
    }
}

} // verus!
