//! The stored form of a record.
//!
//! A record is stored as two byte strings: the key is the identifier as
//! eight little-endian bytes, the value is the entry's three fields in
//! order, each string behind the number of its bytes. Both are written and
//! read with `bincode`'s default functions.

use vstd::bytes::{spec_u64_from_le_bytes, spec_u64_to_le_bytes};
use vstd::prelude::*;
use vstd::utf8::encode_utf8;

use crate::Ino;
use crate::entry::{Entry, EntryView};
use crate::error::{DecodeError, StorageError};
use crate::listing::Record;

verus! {

/// The error of a `bincode` call, taken as it is.
#[verifier::external_type_specification]
#[verifier::external_body]
pub struct ExBincodeErrorKind(bincode::ErrorKind);

/// The length prefix of a string of `bytes`: the number of its bytes, as
/// eight little-endian bytes.
pub open spec fn length_prefix(bytes: Seq<u8>) -> Seq<u8> {
    spec_u64_to_le_bytes(bytes.len() as u64)
}

/// The stored form of the triple of an entry's name, source identifier and
/// source index: each string as its length prefix and its UTF-8 bytes, then
/// the index as eight little-endian bytes.
pub open spec fn entry_encoding(name: Seq<char>, source_id: Seq<char>, source_index: u64) -> Seq<
    u8,
> {
    length_prefix(encode_utf8(name)) + encode_utf8(name) + length_prefix(encode_utf8(source_id))
        + encode_utf8(source_id) + spec_u64_to_le_bytes(source_index)
}

/// The triple that `bincode::deserialize` reads from the front of `bytes`,
/// if it reads one.
pub uninterp spec fn entry_decoding(bytes: Seq<u8>) -> Option<(Seq<char>, Seq<char>, u64)>;

/// Calls `bincode::serialize` on a `u64`.
///
/// That function writes into a vector and sets no limit on the size, so it
/// does not fail. With its fixed-width, little-endian configuration the
/// result is the eight bytes of the number, lowest first.
#[verifier::external_body]
fn serialize_identifier(identifier: u64) -> (written: Result<Vec<u8>, bincode::Error>)
    ensures
        written is Ok,
        written matches Ok(bytes) ==> bytes@ == spec_u64_to_le_bytes(identifier),
{
    bincode::serialize(&identifier)
}

/// Calls `bincode::deserialize` for a `u64`.
///
/// That function reads the first eight bytes as a little-endian number and
/// ignores what follows; with fewer than eight bytes it fails.
#[verifier::external_body]
fn deserialize_identifier(bytes: &[u8]) -> (read: Result<u64, bincode::Error>)
    ensures
        read is Ok <==> bytes@.len() >= 8,
        read matches Ok(identifier) ==> identifier == spec_u64_from_le_bytes(
            bytes@.subrange(0, 8),
        ),
{
    bincode::deserialize::<u64>(bytes)
}

/// Calls `bincode::serialize` on the triple of an entry's fields.
///
/// That function writes into a vector and sets no limit on the size, so it
/// does not fail. It writes a string as the number of its bytes, in eight
/// little-endian bytes, and the bytes themselves, and a tuple as its fields
/// in order. The contract also claims that `bincode::deserialize` reads the
/// same triple from what was written.
#[verifier::external_body]
fn serialize_fields(name: &str, source_id: &str, source_index: u64) -> (written: Result<
    Vec<u8>,
    bincode::Error,
>)
    ensures
        written is Ok,
        written matches Ok(bytes) ==> bytes@ == entry_encoding(name@, source_id@, source_index)
            && entry_decoding(bytes@) == Some((name@, source_id@, source_index)),
{
    bincode::serialize(&(name, source_id, source_index))
}

/// Calls `bincode::deserialize` for the triple of an entry's fields.
///
/// The contract names what comes back: the triple read, or nothing where the
/// call fails.
#[verifier::external_body]
fn deserialize_fields(bytes: &[u8]) -> (read: Result<(String, String, u64), bincode::Error>)
    ensures
        match read {
            Ok(fields) => entry_decoding(bytes@) == Some((fields.0@, fields.1@, fields.2)),
            Err(_) => entry_decoding(bytes@) is None,
        },
{
    bincode::deserialize::<(String, String, u64)>(bytes)
}

/// The identifier stored in `key`, if `key` holds one.
pub open spec fn key_decoding(key: Seq<u8>) -> Option<Ino> {
    if key.len() >= 8 {
        Some(spec_u64_from_le_bytes(key.subrange(0, 8)))
    } else {
        None
    }
}

/// The entry stored in `value`, if `value` holds one: the triple read from
/// it, provided that the name is not empty.
pub open spec fn value_decoding(value: Seq<u8>) -> Option<EntryView> {
    match entry_decoding(value) {
        Some(fields) => if fields.0.len() > 0 {
            Some(EntryView { name: fields.0, source_id: fields.1, source_index: fields.2 })
        } else {
            None
        },
        None => None,
    }
}

/// The fault of the stored pair `(key, value)`, if it has one. The value is
/// looked at first.
pub open spec fn pair_fault(key: Seq<u8>, value: Seq<u8>) -> Option<DecodeError> {
    if value_decoding(value) is None {
        Some(DecodeError::Value)
    } else if key_decoding(key) is None {
        Some(DecodeError::Key)
    } else {
        None
    }
}

/// Whether `record` is what the stored pair `(key, value)` decodes to.
pub open spec fn decodes_to(key: Seq<u8>, value: Seq<u8>, record: Record) -> bool {
    match record {
        Ok(pair) => pair_fault(key, value) is None && key_decoding(key) == Some(pair.0)
            && value_decoding(value) == Some(pair.1@),
        Err(error) => pair_fault(key, value) == Some(error),
    }
}

/// Encodes an identifier as a key. The encoding never fails.
pub fn encode_key(identifier: Ino) -> (key: Result<Vec<u8>, StorageError>)
    ensures
        key matches Ok(bytes) && bytes@ == spec_u64_to_le_bytes(identifier) && key_decoding(
            bytes@,
        ) == Some(identifier),
{
    match serialize_identifier(identifier) {
        Ok(bytes) => {
            proof {
                vstd::bytes::lemma_auto_spec_u64_to_from_le_bytes();
                assert(bytes@.subrange(0, 8) =~= bytes@);
            }
            Ok(bytes)
        },
        Err(_) => Err(StorageError::Encoding),
    }
}

/// Decodes a key. Bytes behind the eighth are ignored.
pub fn decode_key(key: &[u8]) -> (identifier: Result<Ino, DecodeError>)
    ensures
        match identifier {
            Ok(id) => key_decoding(key@) == Some(id),
            Err(error) => key_decoding(key@) is None && error == DecodeError::Key,
        },
{
    match deserialize_identifier(key) {
        Ok(id) => Ok(id),
        Err(_) => Err(DecodeError::Key),
    }
}

/// Encodes an entry as a value. The encoding never fails, and the value
/// decodes to the entry again.
pub fn encode_entry(entry: &Entry) -> (value: Result<Vec<u8>, StorageError>)
    ensures
        value matches Ok(bytes) && bytes@ == entry_encoding(
            entry@.name,
            entry@.source_id,
            entry@.source_index,
        ) && value_decoding(bytes@) == Some(entry@),
{
    let name = entry.name();
    match serialize_fields(name.as_str(), entry.source_id().as_str(), entry.source_index()) {
        Ok(bytes) => Ok(bytes),
        Err(_) => Err(StorageError::Encoding),
    }
}

/// Decodes a value. A value whose name is empty is no entry.
pub fn decode_entry(value: &[u8]) -> (entry: Result<Entry, DecodeError>)
    ensures
        match entry {
            Ok(decoded) => value_decoding(value@) == Some(decoded@),
            Err(error) => value_decoding(value@) is None && error == DecodeError::Value,
        },
{
    match deserialize_fields(value) {
        Ok(fields) => {
            let (name, source_id, source_index) = fields;
            match Entry::new(name, source_id, source_index) {
                Some(decoded) => Ok(decoded),
                None => Err(DecodeError::Value),
            }
        },
        Err(_) => Err(DecodeError::Value),
    }
}

/// Decodes one stored pair into a record of a snapshot.
///
/// The value is decoded first, so a pair whose key and value are both
/// malformed is reported for its value.
pub fn decode_record(key: &[u8], value: &[u8]) -> (record: Record)
    ensures
        decodes_to(key@, value@, record),
        record is Ok <==> pair_fault(key@, value@) is None,
{
    match decode_entry(value) {
        Ok(entry) => match decode_key(key) {
            Ok(identifier) => Ok((identifier, entry)),
            Err(error) => Err(error),
        },
        Err(error) => Err(error),
    }
}

/// A key that was encoded decodes to the identifier it was made from.
pub proof fn lemma_key_round_trip(identifier: Ino)
    ensures
        key_decoding(spec_u64_to_le_bytes(identifier)) == Some(identifier),
{
    vstd::bytes::lemma_auto_spec_u64_to_from_le_bytes();
    assert(spec_u64_to_le_bytes(identifier).subrange(0, 8) =~= spec_u64_to_le_bytes(identifier));
}

/// Bytes behind the key do not change the identifier that is read.
pub proof fn lemma_key_ignores_trailing_bytes(identifier: Ino, trailing: Seq<u8>)
    ensures
        key_decoding(spec_u64_to_le_bytes(identifier) + trailing) == Some(identifier),
{
    vstd::bytes::lemma_auto_spec_u64_to_from_le_bytes();
    assert((spec_u64_to_le_bytes(identifier) + trailing).subrange(0, 8) =~= spec_u64_to_le_bytes(
        identifier,
    ));
}

} // verus!
