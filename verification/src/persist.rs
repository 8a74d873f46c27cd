//! High-score persistence: a stable binary encoding of one unsigned
//! integer.
//!
//! The record is stored as the standard bincode encoding of a `u32`. The
//! host reads and writes the actual file; this module turns the record
//! into bytes and bytes back into the record. A missing file counts as a
//! record of zero; bytes that do not decode are a fatal corruption,
//! reported as an error and never silently replaced.

use vstd::prelude::*;

verus! {

/// The bytes that the standard bincode configuration produces for `n`.
/// The encoding depends on the value alone, so it is stable across runs
/// and machines.
pub uninterp spec fn score_encoding(n: u32) -> Seq<u8>;

/// A stored high score that could not be decoded.
#[derive(Clone, Copy, PartialEq, Eq, Structural, Debug)]
pub enum LoadError {
    /// The saved bytes are not a valid encoding of a record.
    Corrupt,
}

/// Relies on bincode::encode_to_vec with the standard configuration: the
/// bytes are a function of the value alone. Encoding a `u32` into a
/// fresh vector cannot fail: the varint encoder only writes one to five
/// bytes and the vector writer always accepts them.
#[verifier::external_body]
fn encode_score(n: u32) -> (r: Vec<u8>)
    ensures
        r@ == score_encoding(n),
{
    bincode::encode_to_vec(n, bincode::config::standard())
        .expect("encoding a u32 into a vector cannot fail")
}

/// Relies on bincode::decode_from_slice with the standard configuration:
/// decoding is deterministic and returns exactly the value whose
/// encoding the bytes are.
#[verifier::external_body]
fn decode_score(bytes: &Vec<u8>) -> (r: Option<u32>)
    ensures
        forall|n: u32| bytes@ == score_encoding(n) ==> r == Some(n),
{
    match bincode::decode_from_slice::<u32, _>(bytes.as_slice(), bincode::config::standard()) {
        Ok((value, _)) => Some(value),
        Err(_) => None,
    }
}

/// Encode a high score for storage.
pub fn encode_high_score(n: u32) -> (r: Vec<u8>)
    ensures
        r@ == score_encoding(n),
{
    encode_score(n)
}

/// Interpret what the host found at the save path: no file at all is a
/// fresh record of zero, bytes that decode give the stored record, and
/// bytes that do not decode are fatal corruption.
pub fn load_high_score(contents: Option<Vec<u8>>) -> (r: Result<u32, LoadError>)
    ensures
        contents is None ==> r == Ok::<u32, LoadError>(0u32),
        forall|n: u32|
            (contents matches Some(b) && b@ == score_encoding(n)) ==> r == Ok::<
                u32,
                LoadError,
            >(n),
        r is Err ==> contents is Some && r == Err::<u32, LoadError>(LoadError::Corrupt),
    {
    match contents {
        None => Ok(0),
        Some(bytes) => match decode_score(&bytes) {
            Some(value) => Ok(value),
            None => Err(LoadError::Corrupt),
        },
    }
}

/// Round trip: a record that is encoded and loaded back comes out
/// unchanged, whatever its value.
pub fn reloaded_high_score(n: u32) -> (r: Result<u32, LoadError>)
    ensures
        r == Ok::<u32, LoadError>(n),
{
    load_high_score(Some(encode_high_score(n)))
}

} // verus!
