//! The stored form of the shim database, written and read with `bincode`.

use vstd::prelude::*;

verus! {

/// `bincode::ErrorKind`, the error that `bincode`'s functions return (boxed),
/// carried as an opaque value.
#[verifier::external_type_specification]
#[verifier::external_body]
pub struct ExBincodeErrorKind(bincode::ErrorKind);

/// The bytes that `bincode::serialize` writes for a sequence of records, each
/// a command name, a tool name and a tag.
pub uninterp spec fn bincode_bytes(records: Seq<(Seq<char>, Seq<char>, u8)>) -> Seq<u8>;

pub open spec fn stored_records_view(v: Seq<(String, String, u8)>) -> Seq<(Seq<char>, Seq<char>, u8)> {
    v.map_values(|r: (String, String, u8)| (r.0@, r.1@, r.2))
}

/// Relies on `bincode::serialize` (default options): the encoding of the
/// records, which depends on their values alone. It succeeds: the default
/// options set no size limit, and a `Vec` always has a length.
#[verifier::external_body]
pub(crate) fn encode_records(records: &Vec<(String, String, u8)>) -> (r: Result<Vec<u8>, Box<bincode::ErrorKind>>)
    ensures
        r is Ok,
        r matches Ok(bytes) ==> bytes@ == bincode_bytes(stored_records_view(records@)),
{
    bincode::serialize(records)
}

/// Relies on `bincode::deserialize` (default options) reading back what
/// `bincode::serialize` wrote: on the bytes written for some records it
/// succeeds and gives those records.
#[verifier::external_body]
pub(crate) fn decode_records(bytes: &Vec<u8>) -> (r: Result<Vec<(String, String, u8)>, Box<bincode::ErrorKind>>)
    ensures
        r is Ok || forall|records: Seq<(Seq<char>, Seq<char>, u8)>| bincode_bytes(records) != bytes@,
        r is Ok ==> forall|records: Seq<(Seq<char>, Seq<char>, u8)>|
            #[trigger] bincode_bytes(records) == bytes@ ==> stored_records_view(r->Ok_0@) == records,
{
    bincode::deserialize(bytes)
}

} // verus!
