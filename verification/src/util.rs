//! Small helpers shared by the request handlers.

pub use crate::idempotency::response::see_other;
use crate::storage::strings_view;
use vstd::prelude::*;
use vstd::string::StringExecFns;

verus! {

/// A value was rejected because it has no characters.
#[derive(Clone, Copy, Debug, PartialEq, Eq, Structural)]
pub struct EmptyValue;

impl EmptyValue {
    /// The rejection in words.
    pub fn message(&self) -> (res: String)
        ensures
            res@ == "value cannot be empty"@,
    {
        "value cannot be empty".to_string()
    }
}

/// A string with at least one character.
#[derive(Debug)]
pub struct NonEmptyString(String);

impl View for NonEmptyString {
    type V = Seq<char>;

    closed spec fn view(&self) -> Seq<char> {
        self.0@
    }
}

impl NonEmptyString {
    #[verifier::type_invariant]
    spec fn well_formed(self) -> bool {
        self.0@.len() > 0
    }
}

impl TryFrom<String> for NonEmptyString {
    type Error = EmptyValue;

    /// Accepts `value` unchanged unless it is empty.
    fn try_from(value: String) -> (res: Result<NonEmptyString, EmptyValue>)
        ensures
            match res {
                Ok(text) => value@.len() > 0 && text@ == value@,
                Err(_) => value@.len() == 0,
            },
    {
        if value.as_str().is_empty() {
            Err(EmptyValue)
        } else {
            Ok(NonEmptyString(value))
        }
    }
}

impl vstd::std_specs::convert::TryFromSpecImpl<String> for NonEmptyString {
    open spec fn obeys_try_from_spec() -> bool {
        true
    }

    closed spec fn try_from_spec(value: String) -> Result<NonEmptyString, EmptyValue> {
        if value@.len() == 0 {
            Err(EmptyValue)
        } else {
            Ok(NonEmptyString(value))
        }
    }
}

impl From<NonEmptyString> for String {
    /// The string that `v` holds.
    fn from(v: NonEmptyString) -> (res: String)
        ensures
            res@ == v@,
            res@.len() > 0,
    {
        proof {
            use_type_invariant(&v);
        }
        v.0
    }
}

impl vstd::std_specs::convert::FromSpecImpl<NonEmptyString> for String {
    open spec fn obeys_from_spec() -> bool {
        true
    }

    closed spec fn from_spec(v: NonEmptyString) -> String {
        v.0
    }
}

impl AsRef<str> for NonEmptyString {
    fn as_ref(&self) -> (res: &str)
        ensures
            res@ == self@,
            res@.len() > 0,
    {
        proof {
            use_type_invariant(self);
        }
        self.0.as_str()
    }
}

/// An error and the chain of its causes as one text: the error's own
/// message and an empty line, then for each cause, outermost first, a
/// line `Caused by:` and the cause's message, indented by a tab.
pub open spec fn error_chain_text(message: Seq<char>, causes: Seq<Seq<char>>) -> Seq<char>
    decreases causes.len(),
{
    if causes.len() == 0 {
        message + "\n\n"@
    } else {
        error_chain_text(message, causes.drop_last()) + "Caused by:\n\t"@ + causes.last() + "\n"@
    }
}

/// Renders an error with the chain of its causes: `message` is what the
/// error says of itself, `causes` what each error below it says, the
/// immediate cause first.
pub fn error_chain_fmt(message: &str, causes: &Vec<String>) -> (res: String)
    ensures
        res@ == error_chain_text(message@, strings_view(causes@)),
{
    let mut res = message.to_string();
    res.append("\n\n");
    let mut i: usize = 0;
    assert(strings_view(causes@).take(0) =~= Seq::empty());
    while i < causes.len()
        invariant
            i <= causes@.len(),
            res@ == error_chain_text(message@, strings_view(causes@).take(i as int)),
        decreases causes@.len() - i,
    {
        proof {
            let all = strings_view(causes@);
            assert(all.take(i + 1).drop_last() =~= all.take(i as int));
            assert(all.take(i + 1).last() == causes@[i as int]@);
        }
        res.append("Caused by:\n\t");
        res.append(causes[i].as_str());
        res.append("\n");
        i = i + 1;
    }
    assert(strings_view(causes@).take(i as int) =~= strings_view(causes@));
    res
}

/// An error that came up from below, as what it says of itself and what
/// each error beneath it says, the immediate cause first.
#[derive(Debug, PartialEq, Eq)]
pub struct ErrorReport {
    pub message: String,
    pub causes: Vec<String>,
}

impl ErrorReport {
    /// The report of an error without causes.
    pub fn new(message: &str) -> (res: ErrorReport)
        ensures
            res.message@ == message@,
            res.causes@.len() == 0,
    {
        ErrorReport { message: message.to_string(), causes: Vec::new() }
    }

    /// The messages of the error and of its causes, the error's own first.
    pub open spec fn chain(self) -> Seq<Seq<char>> {
        seq![self.message@] + strings_view(self.causes@)
    }

    /// The messages of the error and of its causes, the error's own first.
    pub fn to_chain(&self) -> (res: Vec<String>)
        ensures
            strings_view(res@) == self.chain(),
    {
        let mut res: Vec<String> = Vec::new();
        res.push(self.message.clone());
        let mut i: usize = 0;
        while i < self.causes.len()
            invariant
                i <= self.causes@.len(),
                res@.len() == i + 1,
                res@[0]@ == self.message@,
                forall|j: int| 1 <= j <= i ==> (#[trigger] res@[j])@ == self.causes@[j - 1]@,
            decreases self.causes@.len() - i,
        {
            res.push(self.causes[i].clone());
            i = i + 1;
        }
        assert(strings_view(res@) =~= self.chain());
        res
    }
}

} // verus!
