//! The byte layout of payloads and tickets.
//!
//! A value is written as its fields in order, with nothing between them:
//! a text as the length of its UTF-8 form followed by that form, a byte
//! string as its length followed by its bytes, an unsigned integer as a
//! variable-length integer, a flag as one byte. A sequence is written as the
//! number of its items followed by the items. The payload of a record is
//! then filled with zeros up to a fixed size.

use vstd::prelude::*;
use vstd::utf8::encode_utf8;

verus! {

/// The size of every payload, in bytes.
pub const MAX_RECORD_SIZE: usize = 2048;

/// The greatest length of a label, in bytes of its UTF-8 form.
pub const MAX_LABEL_LEN: usize = 2000;

/// An identifier of at most this many bytes never keeps a task from fitting
/// into a payload.
pub const ID_LEN_THAT_ALWAYS_FITS: usize = 33;

/// A natural number as a variable-length integer: seven bits per byte, the
/// low bits first, the high bit of a byte set when another byte follows.
pub open spec fn varint(n: nat) -> Seq<u8>
    decreases n,
{
    if n < 128 {
        seq![n as u8]
    } else {
        seq![(128 + n % 128) as u8] + varint(n / 128)
    }
}

/// A text on the wire: the length of its UTF-8 form, then that form.
pub open spec fn text_wire(s: Seq<char>) -> Seq<u8> {
    varint(encode_utf8(s).len()) + encode_utf8(s)
}

/// A flag on the wire: one byte, 1 for true and 0 for false.
pub open spec fn flag_wire(b: bool) -> Seq<u8> {
    seq![if b { 1u8 } else { 0u8 }]
}

/// A record on the wire: label, creation time, the two flags, identifier.
pub open spec fn record_wire(
    label: Seq<char>,
    created: u64,
    done: bool,
    is_delete: bool,
    id: Seq<char>,
) -> Seq<u8> {
    text_wire(label) + varint(created as nat) + flag_wire(done) + flag_wire(is_delete)
        + text_wire(id)
}

/// A byte string on the wire: its length, then the bytes.
pub open spec fn bytes_wire(b: Seq<u8>) -> Seq<u8> {
    varint(b.len()) + b
}

/// Byte strings on the wire, one after the other.
pub open spec fn each_bytes_wire(items: Seq<Seq<u8>>) -> Seq<u8>
    decreases items.len(),
{
    if items.len() == 0 {
        Seq::empty()
    } else {
        each_bytes_wire(items.drop_last()) + bytes_wire(items.last())
    }
}

/// A ticket on the wire: the 32 bytes of the topic, the number of peers,
/// then the descriptor of each peer as a byte string.
pub open spec fn ticket_wire(topic: Seq<u8>, peers: Seq<Seq<u8>>) -> Seq<u8> {
    topic + varint(peers.len()) + each_bytes_wire(peers)
}

/// Whether `bytes` begin with `head`.
pub open spec fn has_prefix(head: Seq<u8>, bytes: Seq<u8>) -> bool {
    head.len() <= bytes.len() && bytes.subrange(0, head.len() as int) == head
}

/// Whether `bytes` are a beginning of `whole` that ends before `whole` does.
pub open spec fn cut_short(bytes: Seq<u8>, whole: Seq<u8>) -> bool {
    bytes.len() < whole.len() && whole.subrange(0, bytes.len() as int) == bytes
}

/// `n` zero bytes.
pub open spec fn zeros(n: nat) -> Seq<u8> {
    Seq::new(n, |i: int| 0u8)
}

/// The number of bytes that `varint` takes.
pub open spec fn varint_len(n: nat) -> nat
    decreases n,
{
    if n < 128 {
        1
    } else {
        1 + varint_len(n / 128)
    }
}

/// `varint(n)` has `varint_len(n)` bytes.
pub proof fn lemma_varint_len(n: nat)
    ensures
        varint(n).len() == varint_len(n),
    decreases n,
{
    if n >= 128 {
        lemma_varint_len(n / 128);
    }
}

/// A variable-length integer takes one byte below 128, two below 16384, and
/// never more than ten for a value of 64 bits.
pub proof fn lemma_varint_len_bounds(n: nat)
    ensures
        1 <= varint_len(n),
        n < 128 ==> varint_len(n) == 1,
        128 <= n < 16384 ==> varint_len(n) == 2,
        n <= u64::MAX ==> varint_len(n) <= 10,
{
    reveal_with_fuel(varint_len, 11);
}

/// The length of a record on the wire, field by field.
pub proof fn lemma_record_wire_len(
    label: Seq<char>,
    created: u64,
    done: bool,
    is_delete: bool,
    id: Seq<char>,
)
    ensures
        record_wire(label, created, done, is_delete, id).len() == varint_len(
            encode_utf8(label).len(),
        ) + encode_utf8(label).len() + varint_len(created as nat) + 2 + varint_len(
            encode_utf8(id).len(),
        ) + encode_utf8(id).len(),
{
    lemma_varint_len(encode_utf8(label).len());
    lemma_varint_len(created as nat);
    lemma_varint_len(encode_utf8(id).len());
}

/// A record whose label has at most `MAX_LABEL_LEN` bytes and whose
/// identifier has at most `ID_LEN_THAT_ALWAYS_FITS` bytes fits into a
/// payload.
pub proof fn lemma_record_fits(
    label: Seq<char>,
    created: u64,
    done: bool,
    is_delete: bool,
    id: Seq<char>,
)
    requires
        encode_utf8(label).len() <= MAX_LABEL_LEN,
        encode_utf8(id).len() <= ID_LEN_THAT_ALWAYS_FITS,
    ensures
        record_wire(label, created, done, is_delete, id).len() <= MAX_RECORD_SIZE,
{
    lemma_record_wire_len(label, created, done, is_delete, id);
    lemma_varint_len_bounds(encode_utf8(label).len());
    lemma_varint_len_bounds(created as nat);
    lemma_varint_len_bounds(encode_utf8(id).len());
}

} // verus!
