//! The calls into other crates and into parts of the standard library
//! that the verifier has no specification for. What is stated of them
//! here is believed, not proved.

use rand::distributions::DistString;
use unicode_segmentation::UnicodeSegmentation;
use vstd::prelude::*;
use vstd::string::StringSliceAdditionalSpecFns;

verus! {

/// The number of extended grapheme clusters of a text, as
/// `unicode_segmentation` counts them.
pub uninterp spec fn grapheme_count(text: Seq<char>) -> nat;

/// Whether `validator::validate_email` accepts a text as an email address.
pub uninterp spec fn email_is_valid(address: Seq<char>) -> bool;

/// Whether `char::is_whitespace` holds of a character.
pub uninterp spec fn is_whitespace(c: char) -> bool;

/// Whether `char::is_alphanumeric` holds of a character.
pub uninterp spec fn is_alphanumeric(c: char) -> bool;

/// The bytes that `base64::decode_config` decodes a text to under the
/// standard alphabet with padding, or `None` where it refuses the text.
pub uninterp spec fn base64_decoded(encoded: Seq<char>) -> Option<Seq<u8>>;

/// The hyphenated lower-case text of the identifier with the number
/// `id`, as `uuid` renders it.
pub uninterp spec fn hyphenated_uuid(id: u128) -> Seq<char>;

/// The text of the address that `Url::join` makes of the address `base`
/// and the reference `reference`, or `None` where `base` is no address
/// for `Url::parse` or the two cannot be joined.
pub uninterp spec fn url_joined(base: Seq<char>, reference: Seq<char>) -> Option<Seq<char>>;

/// An ASCII letter or digit.
pub open spec fn is_ascii_alphanumeric(c: char) -> bool {
    ||| 'A' <= c <= 'Z'
    ||| 'a' <= c <= 'z'
    ||| '0' <= c <= '9'
}

/// Calls `UnicodeSegmentation::graphemes` with extended clusters and
/// counts what it yields. The count depends on the text alone.
#[verifier::external_body]
pub(crate) fn count_graphemes(text: &str) -> (res: usize)
    ensures
        res == grapheme_count(text@),
{
    text.graphemes(true).count()
}

/// Calls `validator::validate_email`, which decides from the text alone.
#[verifier::external_body]
pub(crate) fn validate_email(address: &str) -> (res: bool)
    ensures
        res == email_is_valid(address@),
{
    validator::validate_email(address)
}

/// Calls `char::is_whitespace`.
#[verifier::external_body]
pub(crate) fn char_is_whitespace(c: char) -> (res: bool)
    ensures
        res == is_whitespace(c),
{
    c.is_whitespace()
}

/// Calls `char::is_alphanumeric`.
#[verifier::external_body]
pub(crate) fn char_is_alphanumeric(c: char) -> (res: bool)
    ensures
        res == is_alphanumeric(c),
{
    c.is_alphanumeric()
}

/// Calls `Alphanumeric.sample_string` of `rand` with the thread's
/// generator. Whatever is drawn, the string has `len` characters, each of
/// them an ASCII letter or digit.
#[verifier::external_body]
pub(crate) fn random_alphanumeric(len: usize) -> (res: String)
    ensures
        res@.len() == len,
        forall|i: int| 0 <= i < res@.len() ==> is_ascii_alphanumeric(#[trigger] res@[i]),
{
    rand::distributions::Alphanumeric.sample_string(&mut rand::thread_rng(), len)
}

/// Calls `Uuid::new_v4` and hands out the identifier as the 128-bit
/// number that `Uuid::as_u128` gives. Nothing is promised of the number.
#[verifier::external_body]
pub(crate) fn random_uuid() -> (res: u128) {
    uuid::Uuid::new_v4().as_u128()
}

/// Calls `base64::decode_config` with the configuration `STANDARD`. What
/// it decodes depends on the text alone. The call panics where the length
/// of the text in bytes, plus three, does not fit in `usize`.
#[verifier::external_body]
pub(crate) fn decode_base64(encoded: &str) -> (res: Option<Vec<u8>>)
    requires
        encoded.spec_bytes().len() + 3 <= usize::MAX,
    ensures
        match res {
            Some(bytes) => base64_decoded(encoded@) == Some(bytes@),
            None => base64_decoded(encoded@) is None,
        },
{
    base64::decode_config(encoded, base64::STANDARD).ok()
}

/// Calls `String::from_utf8`: the text that the bytes encode, or `None`
/// where the bytes are not UTF-8.
#[verifier::external_body]
pub(crate) fn text_from_utf8(bytes: Vec<u8>) -> (res: Option<String>)
    ensures
        match res {
            Some(text) => vstd::utf8::valid_utf8(bytes@) && text@ == vstd::utf8::decode_utf8(
                bytes@,
            ),
            None => !vstd::utf8::valid_utf8(bytes@),
        },
{
    String::from_utf8(bytes).ok()
}

/// Makes the identifier with the number `id` by `Uuid::from_u128` and
/// renders it by its `to_string`: the hyphenated form, which has 36
/// characters whatever the number.
#[verifier::external_body]
pub(crate) fn uuid_text(id: u128) -> (res: String)
    ensures
        res@ == hyphenated_uuid(id),
        res@.len() == 36,
{
    uuid::Uuid::from_u128(id).to_string()
}

/// Parses `base` by `Url::parse`, resolves `reference` against it by
/// `Url::join`, and hands out the text of the result. What comes out
/// depends on the two texts alone.
#[verifier::external_body]
pub(crate) fn join_url(base: &str, reference: &str) -> (res: Option<String>)
    ensures
        match res {
            Some(joined) => url_joined(base@, reference@) == Some(joined@),
            None => url_joined(base@, reference@) is None,
        },
{
    let base = reqwest::Url::parse(base).ok()?;
    base.join(reference).ok().map(String::from)
}

} // verus!
