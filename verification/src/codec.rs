//! The wire format of an entry as it lies in a queue.
//!
//! An entry is written as four fields, one after the other: the position as
//! eight bytes, least significant first; the length of the kind identifier in
//! bytes, written the same way, and the identifier in UTF-8; the length of the
//! payload, written the same way, and the payload. Nothing may follow.
use crate::types::event::{EntryView, HistoryEvent, HistoryEventEntry};
use vstd::bytes::*;
use vstd::prelude::*;
use vstd::slice::*;
use vstd::string::*;
use vstd::utf8::*;

verus! {

/// Why a byte string is not the encoding of an entry.
#[derive(Debug, Clone, Copy, PartialEq, Eq, Structural)]
pub enum DecodeError {
    /// The bytes end before a field does.
    Truncated,
    /// Bytes follow the payload.
    TrailingBytes,
    /// The kind identifier is not UTF-8.
    InvalidKind,
}

/// The bytes of an entry.
pub open spec fn encoding(entry: EntryView) -> Seq<u8> {
    let kind = encode_utf8(entry.kind);
    spec_u64_to_le_bytes(entry.position) + spec_u64_to_le_bytes(kind.len() as u64) + kind
        + spec_u64_to_le_bytes(entry.payload.len() as u64) + entry.payload
}

/// Whether the lengths of the entry's fields can be written in eight bytes
/// each. Every entry that fits in memory is of that kind.
pub open spec fn encodable(entry: EntryView) -> bool {
    &&& encode_utf8(entry.kind).len() <= u64::MAX
    &&& entry.payload.len() <= u64::MAX
}

/// The entry that a byte string encodes, or the reason why it encodes none.
pub open spec fn decoding(bytes: Seq<u8>) -> Result<EntryView, DecodeError> {
    if bytes.len() < 16 {
        Err(DecodeError::Truncated)
    } else {
        let position = spec_u64_from_le_bytes(bytes.subrange(0, 8));
        let kind_len = spec_u64_from_le_bytes(bytes.subrange(8, 16)) as int;
        if bytes.len() - 16 < kind_len + 8 {
            Err(DecodeError::Truncated)
        } else {
            let kind = bytes.subrange(16, 16 + kind_len);
            let payload_len = spec_u64_from_le_bytes(
                bytes.subrange(16 + kind_len, 24 + kind_len),
            ) as int;
            if bytes.len() - 24 - kind_len < payload_len {
                Err(DecodeError::Truncated)
            } else if bytes.len() - 24 - kind_len > payload_len {
                Err(DecodeError::TrailingBytes)
            } else if !valid_utf8(kind) {
                Err(DecodeError::InvalidKind)
            } else {
                Ok(
                    EntryView {
                        position,
                        kind: decode_utf8(kind),
                        payload: bytes.subrange(24 + kind_len, bytes.len() as int),
                    },
                )
            }
        }
    }
}

/// Decoding what was encoded gives the entry back: its position, its kind
/// and its payload.
pub proof fn decoding_inverts_encoding(entry: EntryView)
    requires
        encodable(entry),
    ensures
        decoding(encoding(entry)) == Ok::<EntryView, DecodeError>(entry),
{
    lemma_auto_spec_u64_to_from_le_bytes();
    let kind = encode_utf8(entry.kind);
    let kind_len = kind.len() as int;
    let bytes = encoding(entry);
    assert(bytes.subrange(0, 8) =~= spec_u64_to_le_bytes(entry.position));
    assert(bytes.subrange(8, 16) =~= spec_u64_to_le_bytes(kind.len() as u64));
    assert(bytes.subrange(16, 16 + kind_len) =~= kind);
    assert(bytes.subrange(16 + kind_len, 24 + kind_len) =~= spec_u64_to_le_bytes(
        entry.payload.len() as u64,
    ));
    assert(bytes.subrange(24 + kind_len, bytes.len() as int) =~= entry.payload);
    encode_utf8_valid_utf8(entry.kind);
    encode_utf8_decode_utf8(entry.kind);
}

/// Bytes that decode are the encoding of what they decode to: no entry has
/// two encodings.
pub proof fn encoding_inverts_decoding(bytes: Seq<u8>)
    requires
        decoding(bytes) is Ok,
    ensures
        encodable(decoding(bytes)->Ok_0),
        encoding(decoding(bytes)->Ok_0) == bytes,
{
    lemma_auto_spec_u64_to_from_le_bytes();
    let entry = decoding(bytes)->Ok_0;
    let kind_len = spec_u64_from_le_bytes(bytes.subrange(8, 16)) as int;
    let kind = bytes.subrange(16, 16 + kind_len);
    decode_utf8_encode_utf8(kind);
    assert(encoding(entry) =~= bytes.subrange(0, 8) + bytes.subrange(8, 16) + kind
        + bytes.subrange(16 + kind_len, 24 + kind_len) + entry.payload);
    assert(encoding(entry) =~= bytes);
}

/// Calls `String::from_utf8`. The standard library documents that it
/// succeeds exactly on valid UTF-8 and that the string then holds the bytes
/// it was given.
#[verifier::external_body]
fn text_from_utf8(bytes: Vec<u8>) -> (out: Option<String>)
    ensures
        out is Some <==> valid_utf8(bytes@),
        out is Some ==> out->Some_0@ == decode_utf8(bytes@),
{
    String::from_utf8(bytes).ok()
}

/// Writes an entry out in the wire format.
pub fn encode_entry(entry: &HistoryEventEntry) -> (out: Vec<u8>)
    ensures
        encodable(entry@),
        out@ == encoding(entry@),
{
    let kind = entry.event.kind.as_str().as_bytes();
    let payload = entry.event.payload.as_slice();
    let mut out = u64_to_le_bytes(entry.position);
    let mut kind_len = u64_to_le_bytes(kind.len() as u64);
    let mut kind_bytes = slice_to_vec(kind);
    let mut payload_len = u64_to_le_bytes(payload.len() as u64);
    let mut payload_bytes = slice_to_vec(payload);
    out.append(&mut kind_len);
    out.append(&mut kind_bytes);
    out.append(&mut payload_len);
    out.append(&mut payload_bytes);
    out
}

/// Reads an entry from the wire format, or says why the bytes hold none.
pub fn decode_entry(bytes: &[u8]) -> (out: Result<HistoryEventEntry, DecodeError>)
    ensures
        match decoding(bytes@) {
            Ok(entry) => out is Ok && out->Ok_0@ == entry,
            Err(error) => out == Err::<HistoryEventEntry, DecodeError>(error),
        },
{
    let n = bytes.len();
    if n < 16 {
        return Err(DecodeError::Truncated);
    }
    let position = u64_from_le_bytes(slice_subrange(bytes, 0, 8));
    let kind_len = u64_from_le_bytes(slice_subrange(bytes, 8, 16));
    if ((n - 16) as u64) < kind_len || (n - 16) as u64 - kind_len < 8 {
        return Err(DecodeError::Truncated);
    }
    let kind_end = 16 + kind_len as usize;
    let payload_len = u64_from_le_bytes(slice_subrange(bytes, kind_end, kind_end + 8));
    let rest = (n - kind_end - 8) as u64;
    if rest < payload_len {
        return Err(DecodeError::Truncated);
    }
    if rest > payload_len {
        return Err(DecodeError::TrailingBytes);
    }
    match text_from_utf8(slice_to_vec(slice_subrange(bytes, 16, kind_end))) {
        None => Err(DecodeError::InvalidKind),
        Some(kind) => Ok(
            HistoryEventEntry {
                position,
                event: HistoryEvent {
                    kind,
                    payload: slice_to_vec(slice_subrange(bytes, kind_end + 8, n)),
                },
            },
        ),
    }
}

} // verus!
