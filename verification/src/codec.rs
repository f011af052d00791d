//! The calls into `postcard` that write and read payloads and tickets.
//!
//! Nothing in this file is proved: each item states what the outside code
//! does, and the rest of the crate is proved from these statements.

use crate::wire::{cut_short, record_wire, ticket_wire};
use vstd::prelude::*;

verus! {

/// The error type of `postcard`.
#[verifier::external_type_specification]
#[verifier::external_body]
pub struct ExPostcardError(postcard::Error);

/// What `postcard::from_bytes` reads from `bytes` when asked for the five
/// fields of a record: the fields, or `None` where it reports an error.
pub uninterp spec fn postcard_record(bytes: Seq<u8>) -> Option<
    (Seq<char>, u64, bool, bool, Seq<char>),
>;

/// Calls `postcard::to_slice` on the five fields, as a tuple in the order of
/// the wire, with `buf` as the place to write to.
///
/// Claimed of it: the length of `buf` stays; the call succeeds exactly when
/// the record on the wire is no longer than `buf`; it then returns that
/// length, and `buf` begins with the record on the wire and is unchanged
/// behind it.
#[verifier::external_body]
pub(crate) fn write_record(
    label: &str,
    created: u64,
    done: bool,
    is_delete: bool,
    id: &str,
    buf: &mut Vec<u8>,
) -> (r: Result<usize, postcard::Error>)
    ensures
        final(buf)@.len() == old(buf)@.len(),
        r is Ok <==> record_wire(label@, created, done, is_delete, id@).len() <= old(buf)@.len(),
        r matches Ok(n) ==> n == record_wire(label@, created, done, is_delete, id@).len()
            && final(buf)@ == record_wire(label@, created, done, is_delete, id@) + old(
            buf,
        )@.skip(n as int),
{
    match postcard::to_slice(&(label, created, done, is_delete, id), buf.as_mut_slice()) {
        Ok(used) => Ok(used.len()),
        Err(e) => Err(e),
    }
}

/// Calls `postcard::from_bytes` on `bytes`, asking for the five fields of a
/// record as a tuple in the order of the wire.
///
/// Claimed of it: the outcome depends on `bytes` alone; `bytes` that begin
/// with a record on the wire give that record's fields, whatever follows;
/// and `bytes` that end before a record on the wire does are an error.
#[verifier::external_body]
pub(crate) fn read_record(bytes: &[u8]) -> (r: Result<(String, u64, bool, bool, String), postcard::Error>)
    ensures
        r matches Ok(f) ==> postcard_record(bytes@) == Some((f.0@, f.1, f.2, f.3, f.4@)),
        r is Err ==> postcard_record(bytes@) is None,
        (forall|label: Seq<char>, created: u64, done: bool, is_delete: bool, id: Seq<char>, rest: Seq<u8>|
            bytes@ == #[trigger] (record_wire(label, created, done, is_delete, id) + rest) ==> r is Ok
                && r->Ok_0.0@ == label && r->Ok_0.1 == created && r->Ok_0.2 == done && r->Ok_0.3
                == is_delete && r->Ok_0.4@ == id),
        (forall|label: Seq<char>, created: u64, done: bool, is_delete: bool, id: Seq<char>|
            cut_short(bytes@, #[trigger] record_wire(label, created, done, is_delete, id)) ==> r is Err),
{
    postcard::from_bytes::<(String, u64, bool, bool, String)>(bytes)
}

/// What `postcard::from_bytes` reads from `bytes` when asked for a topic of
/// 32 bytes and a sequence of byte strings: the two, or `None` where it
/// reports an error.
pub uninterp spec fn postcard_ticket(bytes: Seq<u8>) -> Option<(Seq<u8>, Seq<Seq<u8>>)>;

/// Calls `postcard::to_stdvec` on the topic and the peers, as a tuple in the
/// order of the wire.
///
/// Claimed of it: writing to a vector that grows never fails, and the
/// vector holds the ticket on the wire.
#[verifier::external_body]
pub(crate) fn write_ticket(topic: &[u8; 32], peers: &Vec<Vec<u8>>) -> (r: Result<Vec<u8>, postcard::Error>)
    ensures
        r is Ok,
        r matches Ok(v) ==> v@ == ticket_wire(topic@, peers.deep_view()),
{
    postcard::to_stdvec(&(topic, peers))
}

/// Calls `postcard::from_bytes` on `bytes`, asking for a topic of 32 bytes
/// and a sequence of byte strings as a tuple in the order of the wire.
///
/// Claimed of it: the outcome depends on `bytes` alone; `bytes` that begin
/// with a ticket on the wire give that ticket's topic and peers, whatever
/// follows; and `bytes` that end before a ticket on the wire does are an
/// error.
#[verifier::external_body]
pub(crate) fn read_ticket(bytes: &[u8]) -> (r: Result<([u8; 32], Vec<Vec<u8>>), postcard::Error>)
    ensures
        r matches Ok(f) ==> postcard_ticket(bytes@) == Some((f.0@, f.1.deep_view())),
        r is Err ==> postcard_ticket(bytes@) is None,
        (forall|topic: Seq<u8>, peers: Seq<Seq<u8>>, rest: Seq<u8>|
            topic.len() == 32 && bytes@ == #[trigger] (ticket_wire(topic, peers) + rest) ==> r is Ok
                && r->Ok_0.0@ == topic && r->Ok_0.1.deep_view() == peers),
        (forall|topic: Seq<u8>, peers: Seq<Seq<u8>>|
            topic.len() == 32 && cut_short(bytes@, #[trigger] ticket_wire(topic, peers)) ==> r is Err),
{
    postcard::from_bytes::<([u8; 32], Vec<Vec<u8>>)>(bytes)
}

} // verus!
