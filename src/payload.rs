//! File payloads: arbitrary bytes carried in a text-only frame as
//! standard padded base64.
use vstd::prelude::*;

use crate::error::SyncError;
use base64::Engine;

use crate::message::{decode_spec, Message, MessageView, RecordError};

verus! {

#[verifier::external_type_specification]
#[verifier::external_body]
pub struct ExBase64DecodeError(base64::DecodeError);

/// What the standard padded base64 encoding writes for `b`.
pub uninterp spec fn b64_of(b: Seq<u8>) -> Seq<char>;

/// What decoding `s` as standard padded base64 gives, if it is valid.
pub uninterp spec fn b64_decoded(s: Seq<char>) -> Option<Seq<u8>>;

/// Relies on `base64::Engine::encode` with the `STANDARD` engine: the padded
/// encoding, four characters for each started group of three bytes (so the
/// empty input gives the empty string), which the same engine decodes back
/// to the input. It panics only when the output length overflows `usize`,
/// which the bound (the largest size of an allocation) rules out.
#[verifier::external_body]
fn b64_encode(b: &[u8]) -> (r: String)
    requires
        b@.len() <= usize::MAX / 2,
    ensures
        r@ == b64_of(b@),
        r@.len() == 4 * ((b@.len() + 2) / 3),
        b64_decoded(r@) == Some(b@),
{
    base64::engine::general_purpose::STANDARD.encode(b)
}

/// Relies on `base64::Engine::decode` with the `STANDARD` engine: the bytes
/// when the input is valid padded base64, else an error; the empty input
/// decodes to no bytes.
#[verifier::external_body]
fn b64_decode(s: &str) -> (r: Result<Vec<u8>, base64::DecodeError>)
    ensures
        r is Ok <==> b64_decoded(s@) is Some,
        r is Ok ==> Some(r->Ok_0@) == b64_decoded(s@),
        s@.len() == 0 ==> r is Ok && r->Ok_0@.len() == 0,
{
    base64::engine::general_purpose::STANDARD.decode(s)
}

/// The `File` message that carries `bytes` under `name`. Its record
/// decodes back to the same message, whose payload decodes back to the
/// same bytes.
pub fn file_message(name: String, bytes: &[u8]) -> (r: Message)
    requires
        bytes@.len() <= usize::MAX / 2,
    ensures
        r@ == (MessageView::File { name: name@, data: b64_of(bytes@) }),
        b64_decoded(r->File_data@) == Some(bytes@),
        r->File_data@.len() == 4 * ((bytes@.len() + 2) / 3),
        decode_spec(crate::message::encode_spec(r@)) == Ok::<MessageView, RecordError>(r@),
{
    let data = b64_encode(bytes);
    let r = Message::File { name, data };
    proof {
        crate::message::lemma_decode_encode(r@);
    }
    r
}

/// The bytes carried by a received file payload.
pub fn file_bytes(data: &str) -> (r: Result<Vec<u8>, SyncError>)
    ensures
        data@.len() == 0 ==> r is Ok,
        match r {
            Ok(v) => b64_decoded(data@) == Some(v@) && (data@.len() == 0 ==> v@.len() == 0),
            Err(e) => b64_decoded(data@) is None && e == (SyncError::DecodeFailure {
                kind: RecordError::Malformed,
            }),
        },
{
    match b64_decode(data) {
        Ok(v) => Ok(v),
        Err(_) => Err(SyncError::DecodeFailure { kind: RecordError::Malformed }),
    }
}

} // verus!
