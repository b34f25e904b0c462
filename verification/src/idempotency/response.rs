//! A replayable capture of an HTTP-level outcome.

use vstd::prelude::*;
use vstd::string::StrSliceExecFns;

verus! {

/// The status code of a "see other" redirect.
pub const SEE_OTHER: u16 = 303;

/// One response header: its name, and its value as raw bytes.
#[derive(Debug, PartialEq, Eq)]
pub struct HeaderPair {
    pub name: String,
    pub value: Vec<u8>,
}

impl View for HeaderPair {
    type V = (Seq<char>, Seq<u8>);

    open spec fn view(&self) -> (Seq<char>, Seq<u8>) {
        (self.name@, self.value@)
    }
}

/// What a [`ResponseEnvelope`] holds, as mathematical values.
pub struct EnvelopeView {
    pub status: u16,
    pub headers: Seq<(Seq<char>, Seq<u8>)>,
    pub body: Seq<u8>,
}

/// Status code, header list and body of a response, captured so that the
/// same response can be handed out again later.
#[derive(Debug, PartialEq, Eq)]
pub struct ResponseEnvelope {
    pub status_code: u16,
    pub headers: Vec<HeaderPair>,
    pub body: Vec<u8>,
}

impl View for ResponseEnvelope {
    type V = EnvelopeView;

    open spec fn view(&self) -> EnvelopeView {
        EnvelopeView {
            status: self.status_code,
            headers: Seq::new(self.headers@.len(), |i: int| self.headers@[i]@),
            body: self.body@,
        }
    }
}

/// The smallest status code.
pub const MIN_STATUS: i16 = 100;

/// The largest status code.
pub const MAX_STATUS: i16 = 999;

/// The stored columns of a record do not fit together: some are set and
/// others are not, or the status code is none.
#[derive(Clone, Copy, Debug, PartialEq, Eq, Structural)]
pub struct CorruptRecord;

/// The envelope of a "see other" redirect to `location`: one `location`
/// header whose value is the UTF-8 encoding of the path, and no body.
pub open spec fn see_other_view(location: Seq<char>) -> EnvelopeView {
    EnvelopeView {
        status: SEE_OTHER,
        headers: seq![("location"@, vstd::utf8::encode_utf8(location))],
        body: Seq::empty(),
    }
}

/// Copies a byte string.
pub fn copy_bytes(bytes: &Vec<u8>) -> (res: Vec<u8>)
    ensures
        res@ == bytes@,
{
    let mut res: Vec<u8> = Vec::new();
    let mut i: usize = 0;
    while i < bytes.len()
        invariant
            i <= bytes.len(),
            res@ == bytes@.take(i as int),
        decreases bytes.len() - i,
    {
        res.push(bytes[i]);
        i = i + 1;
    }
    res
}

impl HeaderPair {
    /// A copy of this header.
    pub fn duplicate(&self) -> (res: HeaderPair)
        ensures
            res@ == self@,
    {
        HeaderPair { name: self.name.clone(), value: copy_bytes(&self.value) }
    }
}

impl ResponseEnvelope {
    /// A copy of this envelope, equal to it in status, headers and body.
    pub fn duplicate(&self) -> (res: ResponseEnvelope)
        ensures
            res@ == self@,
    {
        let mut headers: Vec<HeaderPair> = Vec::new();
        let mut i: usize = 0;
        while i < self.headers.len()
            invariant
                i <= self.headers.len(),
                headers@.len() == i,
                forall|j: int| 0 <= j < i ==> (#[trigger] headers@[j])@ == self.headers@[j]@,
            decreases self.headers.len() - i,
        {
            headers.push(self.headers[i].duplicate());
            i = i + 1;
        }
        let res = ResponseEnvelope {
            status_code: self.status_code,
            headers,
            body: copy_bytes(&self.body),
        };
        assert(res@.headers =~= self@.headers);
        res
    }
}

/// The response that sends the client on to `location`.
pub fn see_other(location: &str) -> (res: ResponseEnvelope)
    ensures
        res@ == see_other_view(location@),
{
    let mut headers: Vec<HeaderPair> = Vec::new();
    headers.push(HeaderPair { name: "location".to_string(), value: location.as_bytes_vec() });
    let res = ResponseEnvelope { status_code: SEE_OTHER, headers, body: Vec::new() };
    assert(res@.headers =~= see_other_view(location@).headers);
    res
}

/// Reads the response of an idempotency record from its stored columns,
/// each of which may be unset. A record with no column set is a
/// reservation and holds no response. A record with every column set and
/// a status code from 100 to 999 holds that response. Anything else is
/// corrupt.
pub fn saved_response_of(
    status_code: Option<i16>,
    headers: Option<Vec<HeaderPair>>,
    body: Option<Vec<u8>>,
) -> (res: Result<Option<ResponseEnvelope>, CorruptRecord>)
    ensures
        match (status_code, headers, body) {
            (None, None, None) => res == Ok::<Option<ResponseEnvelope>, CorruptRecord>(None),
            (Some(code), Some(stored_headers), Some(stored_body)) => if MIN_STATUS <= code
                <= MAX_STATUS {
                res matches Ok(Some(response)) && response.status_code == code
                    && response.headers == stored_headers && response.body == stored_body
            } else {
                res is Err
            },
            _ => res is Err,
        },
{
    match (status_code, headers, body) {
        (None, None, None) => Ok(None),
        (Some(code), Some(stored_headers), Some(stored_body)) => {
            if code < MIN_STATUS || code > MAX_STATUS {
                return Err(CorruptRecord);
            }
            Ok(
                Some(
                    ResponseEnvelope {
                        status_code: code as u16,
                        headers: stored_headers,
                        body: stored_body,
                    },
                ),
            )
        },
        _ => Err(CorruptRecord),
    }
}

impl ResponseEnvelope {
    /// The status code as it is stored: as it is where it lies between
    /// 100 and 999, and not at all otherwise.
    pub fn stored_status(&self) -> (res: Option<i16>)
        ensures
            match res {
                Some(code) => code == self.status_code && MIN_STATUS <= code <= MAX_STATUS,
                None => self.status_code < MIN_STATUS || self.status_code > MAX_STATUS,
            },
    {
        if self.status_code < 100 || self.status_code > 999 {
            None
        } else {
            Some(self.status_code as i16)
        }
    }
}

} // verus!
