//! The tokens that confirm a subscription.

use crate::trusted::char_is_alphanumeric;
use crate::trusted::is_alphanumeric;
use crate::trusted::is_ascii_alphanumeric;
use crate::trusted::random_alphanumeric;
use vstd::prelude::*;
use vstd::string::StrSliceExecFns;
use vstd::string::StringExecFns;

verus! {

/// The length of a token, in bytes.
pub const TOKEN_LEN: usize = 25;

/// Every character of `s` is alphanumeric.
pub open spec fn all_alphanumeric(s: Seq<char>) -> bool {
    forall|i: int| 0 <= i < s.len() ==> is_alphanumeric(#[trigger] s[i])
}

/// Whether `s` has the form of a subscription token: 25 bytes of UTF-8,
/// alphanumeric characters only.
pub open spec fn is_valid_token(s: Seq<char>) -> bool {
    vstd::utf8::encode_utf8(s).len() == TOKEN_LEN && all_alphanumeric(s)
}

/// What is said of a text that is no token.
pub open spec fn invalid_token_message(s: Seq<char>) -> Seq<char> {
    s + " is not a valid subscription token."@
}

/// A subscription token. Tokens that were parsed or generated have the
/// form of a token; the default token is empty.
#[derive(Debug)]
pub struct SubscriptionToken(String);

impl View for SubscriptionToken {
    type V = Seq<char>;

    closed spec fn view(&self) -> Seq<char> {
        self.0@
    }
}

impl Default for SubscriptionToken {
    fn default() -> (res: SubscriptionToken)
        ensures
            res@ == Seq::<char>::empty(),
    {
        SubscriptionToken(String::new())
    }
}

impl SubscriptionToken {
    /// A fresh random token: 25 characters, each an ASCII letter or digit.
    pub fn new() -> (res: SubscriptionToken)
        ensures
            res@.len() == TOKEN_LEN,
            forall|i: int| 0 <= i < res@.len() ==> is_ascii_alphanumeric(#[trigger] res@[i]),
    {
        let token = random_alphanumeric(TOKEN_LEN);
        SubscriptionToken(token)
    }

    /// Accepts `s` unchanged where it has the form of a token, and
    /// otherwise says that it has not.
    pub fn parse(s: &str) -> (res: Result<SubscriptionToken, String>)
        ensures
            match res {
                Ok(token) => is_valid_token(s@) && token@ == s@,
                Err(message) => !is_valid_token(s@) && message@ == invalid_token_message(s@),
            },
    {
        let valid_token_len = s.as_bytes().len() == TOKEN_LEN;
        let mut valid_chars = true;
        let n: usize = s.unicode_len();
        let mut i: usize = 0;
        while i < n
            invariant
                i <= n,
                n == s@.len(),
                valid_chars == all_alphanumeric(s@.take(i as int)),
            decreases n - i,
        {
            let c = s.get_char(i);
            proof {
                let before = s@.take(i as int);
                let after = s@.take(i + 1);
                assert(after =~= before.push(c));
                if all_alphanumeric(after) {
                    assert forall|j: int| 0 <= j < before.len() implies is_alphanumeric(
                        #[trigger] before[j],
                    ) by {
                        assert(after[j] == before[j]);
                    }
                    assert(after[i as int] == c);
                }
                if all_alphanumeric(before) && is_alphanumeric(c) {
                    assert forall|j: int| 0 <= j < after.len() implies is_alphanumeric(
                        #[trigger] after[j],
                    ) by {
                        if j < i {
                            assert(after[j] == before[j]);
                        }
                    }
                }
            }
            if !char_is_alphanumeric(c) {
                valid_chars = false;
            }
            i = i + 1;
        }
        assert(s@.take(n as int) =~= s@);
        if valid_token_len && valid_chars {
            Ok(SubscriptionToken(s.to_string()))
        } else {
            Err(s.to_string().concat(" is not a valid subscription token."))
        }
    }
}

impl AsRef<str> for SubscriptionToken {
    fn as_ref(&self) -> (res: &str)
        ensures
            res@ == self@,
    {
        self.0.as_str()
    }
}

} // verus!
