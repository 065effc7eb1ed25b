use crate::cipher::{key_check, EncryptionKey, KeyModel};
use crate::error::PipelineError;
use crate::fetch::{is_success, response_is_success, Response};
use crate::playlist::Segment;
use crate::uri::{referer_for, referer_of, resolve_uri, resolved, text_of};
use vstd::prelude::*;

verus! {

/// The value of a hexadecimal digit; `None` for any other character.
pub open spec fn hex_value(c: char) -> Option<int> {
    if '0' <= c <= '9' {
        Some(c as int - '0' as int)
    } else if 'a' <= c <= 'f' {
        Some(c as int - 'a' as int + 10)
    } else if 'A' <= c <= 'F' {
        Some(c as int - 'A' as int + 10)
    } else {
        None
    }
}

/// The text is an even number of hexadecimal digits.
pub open spec fn is_hex_text(s: Seq<char>) -> bool {
    &&& s.len() % 2 == 0
    &&& forall|i: int| 0 <= i < s.len() ==> hex_value(#[trigger] s[i]) is Some
}

/// The bytes that a text of hexadecimal digits stands for: each pair of
/// digits is one byte, the high half first.
pub open spec fn hex_bytes(s: Seq<char>) -> Seq<u8> {
    Seq::new(
        s.len() / 2,
        |i: int| (16 * hex_value(s[2 * i]).unwrap() + hex_value(s[2 * i + 1]).unwrap()) as u8,
    )
}

/// Calls `hex::decode`.
///
/// Trusted: the call succeeds exactly on an even number of hexadecimal
/// digits, upper and lower case alike, and gives one byte for each pair of
/// digits, the first digit being the high half.
#[verifier::external_body]
fn hex_decode(s: &str) -> (r: Option<Vec<u8>>)
    ensures
        r is Some <==> is_hex_text(s@),
        r matches Some(v) ==> v@ == hex_bytes(s@),
{
    hex::decode(s).ok()
}

/// The text begins with `0x`.
pub open spec fn has_hex_prefix(s: Seq<char>) -> bool {
    s.len() >= 2 && s[0] == '0' && s[1] == 'x'
}

/// The digits of an initialization vector: the text without its `0x`
/// prefix, where it has one.
pub open spec fn iv_digits(iv: Seq<char>) -> Seq<char> {
    if has_hex_prefix(iv) {
        iv.skip(2)
    } else {
        iv
    }
}

/// The text is a well-formed initialization vector: 32 hexadecimal digits
/// behind an optional `0x`.
pub open spec fn is_iv_text(iv: Seq<char>) -> bool {
    is_hex_text(iv_digits(iv)) && iv_digits(iv).len() == 32
}

/// Decodes an initialization vector from hexadecimal, with an optional `0x`
/// prefix, into exactly 16 bytes. Fails with `IvFormat` on anything else.
pub fn decode_iv(iv: &str) -> (r: Result<Vec<u8>, PipelineError>)
    ensures
        r is Ok <==> is_iv_text(iv@),
        r matches Ok(v) ==> v@ == hex_bytes(iv_digits(iv@)) && v@.len() == 16,
        r matches Err(e) ==> e == PipelineError::IvFormat,
{
    let n = iv.unicode_len();
    let digits = if n >= 2 && iv.get_char(0) == '0' && iv.get_char(1) == 'x' {
        iv.substring_char(2, n)
    } else {
        iv
    };
    match hex_decode(digits) {
        Some(v) => {
            if v.len() == 16 {
                Ok(v)
            } else {
                Err(PipelineError::IvFormat)
            }
        },
        None => Err(PipelineError::IvFormat),
    }
}

/// The one request with which a job gets its key.
#[derive(Clone, Debug, PartialEq, Eq)]
pub struct KeyRequest {
    /// Where the key is, as an absolute location.
    pub uri: String,
    /// The initialization vector, as the manifest writes it.
    pub iv: String,
    /// The `Referer` to send, derived from the domain of `uri`.
    pub referer: Option<String>,
}

/// What a `KeyRequest` holds.
pub struct KeyRequestModel {
    pub uri: Seq<char>,
    pub iv: Seq<char>,
    pub referer: Option<Seq<char>>,
}

impl View for KeyRequest {
    type V = KeyRequestModel;

    open spec fn view(&self) -> KeyRequestModel {
        KeyRequestModel {
            uri: self.uri@,
            iv: self.iv@,
            referer: match self.referer {
                Some(r) => Some(r@),
                None => None,
            },
        }
    }
}

/// What a job has to fetch to get its key. Only the first segment's key
/// reference counts: without segments, or where the first segment names no
/// key, there is nothing to fetch and the segments are taken as
/// unencrypted. A key reference without a location is an `InvalidUri`, one
/// without an initialization vector an `IvFormat`.
pub open spec fn key_request_of(segments: Seq<Segment>, base: Option<Seq<char>>) -> Result<
    Option<KeyRequestModel>,
    PipelineError,
> {
    if segments.len() == 0 {
        Ok(None)
    } else {
        match segments[0].key {
            None => Ok(None),
            Some(k) => match k.uri {
                None => Err(PipelineError::InvalidUri),
                Some(u) => match resolved(base, u@) {
                    Err(e) => Err(e),
                    Ok(uri) => match k.iv {
                        None => Err(PipelineError::IvFormat),
                        Some(iv) => Ok(
                            Some(KeyRequestModel { uri, iv: iv@, referer: referer_of(uri) }),
                        ),
                    },
                },
            },
        }
    }
}

/// Works out the job's key request from the media manifest's segments.
pub fn key_request(segments: &[Segment], base: Option<&str>) -> (r: Result<
    Option<KeyRequest>,
    PipelineError,
>)
    ensures
        match key_request_of(segments@, text_of(base)) {
            Ok(Some(m)) => r matches Ok(Some(q)) && q@ == m,
            Ok(None) => r matches Ok(None),
            Err(e) => r matches Err(x) && x == e,
        },
{
    if segments.len() == 0 {
        return Ok(None);
    }
    let key = match &segments[0].key {
        Some(k) => k,
        None => {
            return Ok(None);
        },
    };
    let reference = match &key.uri {
        Some(u) => u,
        None => {
            return Err(PipelineError::InvalidUri);
        },
    };
    let uri = match resolve_uri(base, reference.as_str()) {
        Ok(u) => u,
        Err(e) => {
            return Err(e);
        },
    };
    let iv = match &key.iv {
        Some(iv) => iv.clone(),
        None => {
            return Err(PipelineError::IvFormat);
        },
    };
    let referer = referer_for(uri.as_str());
    Ok(Some(KeyRequest { uri, iv, referer }))
}

/// The key that the answer to the key request gives: `KeyFetch` unless a
/// response with a 2xx status arrived, then `IvFormat` unless the
/// initialization vector is well formed, then `KeyLength` unless the body
/// is 16 bytes long.
pub open spec fn key_resolution(iv: Seq<char>, response: Response, body: Seq<u8>) -> Result<
    KeyModel,
    PipelineError,
> {
    if !is_success(response) {
        Err(PipelineError::KeyFetch)
    } else if !is_iv_text(iv) {
        Err(PipelineError::IvFormat)
    } else {
        match key_check(body, hex_bytes(iv_digits(iv))) {
            Ok(_) => Ok(KeyModel { key: body, iv: hex_bytes(iv_digits(iv)) }),
            Err(e) => Err(e),
        }
    }
}

/// Makes the job's key from the answer to the key request: the body is the
/// raw key, the initialization vector comes from the manifest.
pub fn resolve_key(request: &KeyRequest, response: Response, body: Vec<u8>) -> (r: Result<
    EncryptionKey,
    PipelineError,
>)
    ensures
        match key_resolution(request@.iv, response, body@) {
            Ok(m) => r matches Ok(k) && k@ == m,
            Err(e) => r matches Err(x) && x == e,
        },
{
    if !response_is_success(response) {
        return Err(PipelineError::KeyFetch);
    }
    let iv = match decode_iv(request.iv.as_str()) {
        Ok(v) => v,
        Err(e) => {
            return Err(e);
        },
    };
    EncryptionKey::new(body, iv)
}

} // verus!
