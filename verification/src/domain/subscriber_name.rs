//! Names of subscribers.

use crate::trusted::char_is_whitespace;
use crate::trusted::count_graphemes;
use crate::trusted::grapheme_count;
use crate::trusted::is_whitespace;
use vstd::prelude::*;
use vstd::string::StrSliceExecFns;
use vstd::string::StringExecFns;

verus! {

/// The largest number of grapheme clusters a name may have.
pub const MAX_NAME_GRAPHEMES: usize = 256;

/// The characters that no name may contain.
pub open spec fn is_forbidden_character(c: char) -> bool {
    ||| c == '&'
    ||| c == '='
    ||| c == ','
    ||| c == '"'
    ||| c == '-'
    ||| c == '+'
    ||| c == '('
    ||| c == ')'
    ||| c == '<'
    ||| c == '>'
    ||| c == '\\'
    ||| c == '/'
    ||| c == '{'
    ||| c == '}'
}

/// Some character of `s` is not whitespace.
pub open spec fn has_non_whitespace(s: Seq<char>) -> bool {
    exists|i: int| 0 <= i < s.len() && !is_whitespace(#[trigger] s[i])
}

/// No character of `s` is forbidden.
pub open spec fn has_no_forbidden_character(s: Seq<char>) -> bool {
    forall|i: int| 0 <= i < s.len() ==> !is_forbidden_character(#[trigger] s[i])
}

/// Whether `s` is acceptable as a subscriber's name: at most 256
/// grapheme clusters, not only whitespace, no forbidden character.
pub open spec fn is_valid_name(s: Seq<char>) -> bool {
    &&& grapheme_count(s) <= MAX_NAME_GRAPHEMES
    &&& has_non_whitespace(s)
    &&& has_no_forbidden_character(s)
}

/// What is said of a text that is no name.
pub open spec fn invalid_name_message(s: Seq<char>) -> Seq<char> {
    s + " is not a valid subscriber name."@
}

/// Whether no name may contain `c`.
pub fn is_forbidden(c: char) -> (res: bool)
    ensures
        res == is_forbidden_character(c),
{
    c == '&' || c == '=' || c == ',' || c == '"' || c == '-' || c == '+' || c == '(' || c == ')'
        || c == '<' || c == '>' || c == '\\' || c == '/' || c == '{' || c == '}'
}

/// The forbidden characters, each once.
pub fn forbidden_characters() -> (res: Vec<char>)
    ensures
        res@.len() == 14,
        forall|c: char| is_forbidden_character(c) <==> res@.contains(c),
{
    let res = vec!['&', '=', ',', '"', '-', '+', '(', ')', '<', '>', '\\', '/', '{', '}'];
    proof {
        assert forall|c: char| is_forbidden_character(c) implies res@.contains(c) by {
            let i: int = if c == '&' {
                0
            } else if c == '=' {
                1
            } else if c == ',' {
                2
            } else if c == '"' {
                3
            } else if c == '-' {
                4
            } else if c == '+' {
                5
            } else if c == '(' {
                6
            } else if c == ')' {
                7
            } else if c == '<' {
                8
            } else if c == '>' {
                9
            } else if c == '\\' {
                10
            } else if c == '/' {
                11
            } else if c == '{' {
                12
            } else {
                13
            };
            assert(res@[i] == c);
        }
    }
    res
}

/// The name of a subscriber.
#[derive(Debug)]
pub struct SubscriberName(String);

impl View for SubscriberName {
    type V = Seq<char>;

    closed spec fn view(&self) -> Seq<char> {
        self.0@
    }
}

impl SubscriberName {
    #[verifier::type_invariant]
    spec fn well_formed(self) -> bool {
        is_valid_name(self.0@)
    }

    /// Accepts `s` unchanged where it is a valid name, and otherwise says
    /// that it is not.
    pub fn parse(s: &str) -> (res: Result<SubscriberName, String>)
        ensures
            match res {
                Ok(name) => is_valid_name(s@) && name@ == s@,
                Err(message) => !is_valid_name(s@) && message@ == invalid_name_message(s@),
            },
    {
        let within_256_chars = count_graphemes(s) <= MAX_NAME_GRAPHEMES;
        let mut has_non_whitespace = false;
        let mut no_forbidden_chars = true;
        let n: usize = s.unicode_len();
        let mut i: usize = 0;
        while i < n
            invariant
                i <= n,
                n == s@.len(),
                has_non_whitespace == self::has_non_whitespace(s@.take(i as int)),
                no_forbidden_chars == has_no_forbidden_character(s@.take(i as int)),
            decreases n - i,
        {
            let c = s.get_char(i);
            proof {
                let before = s@.take(i as int);
                let after = s@.take(i + 1);
                assert(after =~= before.push(c));
                if self::has_non_whitespace(before) {
                    let j = choose|j: int| 0 <= j < before.len() && !is_whitespace(#[trigger] before[j]);
                    assert(after[j] == before[j]);
                }
                if self::has_non_whitespace(after) && is_whitespace(c) {
                    let j = choose|j: int| 0 <= j < after.len() && !is_whitespace(#[trigger] after[j]);
                    assert(before[j] == after[j]);
                }
                if !is_whitespace(c) {
                    assert(after[i as int] == c);
                }
                if has_no_forbidden_character(after) {
                    assert forall|j: int| 0 <= j < before.len() implies !is_forbidden_character(
                        #[trigger] before[j],
                    ) by {
                        assert(after[j] == before[j]);
                    }
                    assert(after[i as int] == c);
                }
                if has_no_forbidden_character(before) && !is_forbidden_character(c) {
                    assert forall|j: int| 0 <= j < after.len() implies !is_forbidden_character(
                        #[trigger] after[j],
                    ) by {
                        if j < i {
                            assert(after[j] == before[j]);
                        }
                    }
                }
            }
            if !char_is_whitespace(c) {
                has_non_whitespace = true;
            }
            if is_forbidden(c) {
                no_forbidden_chars = false;
            }
            i = i + 1;
        }
        assert(s@.take(n as int) =~= s@);
        if within_256_chars && has_non_whitespace && no_forbidden_chars {
            Ok(SubscriberName(s.to_string()))
        } else {
            Err(s.to_string().concat(" is not a valid subscriber name."))
        }
    }
}

impl AsRef<str> for SubscriberName {
    fn as_ref(&self) -> (res: &str)
        ensures
            res@ == self@,
            is_valid_name(self@),
    {
        proof {
            use_type_invariant(self);
        }
        self.0.as_str()
    }
}

} // verus!
