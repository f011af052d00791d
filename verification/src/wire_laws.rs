//! The wire can be read in one way only.
//!
//! Whatever follows a value on the wire, the bytes tell where the value ends
//! and which value it is. So a payload holds one task and no other, and the
//! bytes of a ticket hold one ticket and no other.

use crate::wire::{
    bytes_wire, each_bytes_wire, flag_wire, record_wire, text_wire, ticket_wire, varint,
};
use vstd::prelude::*;
use vstd::utf8::{encode_utf8, encode_utf8_decode_utf8};

verus! {

/// What follows equal beginnings of equal byte strings is equal.
proof fn lemma_cancel(a: Seq<u8>, x: Seq<u8>, y: Seq<u8>)
    requires
        a + x == a + y,
    ensures
        x == y,
{
    assert((a + x).skip(a.len() as int) =~= x);
    assert((a + y).skip(a.len() as int) =~= y);
}

/// Beginnings of the same length of equal byte strings are equal, and so
/// is what follows them.
proof fn lemma_split(a: Seq<u8>, x: Seq<u8>, b: Seq<u8>, y: Seq<u8>)
    requires
        a + x == b + y,
        a.len() == b.len(),
    ensures
        a == b,
        x == y,
{
    assert((a + x).take(a.len() as int) =~= a);
    assert((b + y).take(b.len() as int) =~= b);
    lemma_cancel(a, x, y);
}

/// Five byte strings and what follows them, put together from the back.
proof fn lemma_regroup(a: Seq<u8>, b: Seq<u8>, c: Seq<u8>, d: Seq<u8>, e: Seq<u8>, x: Seq<u8>)
    ensures
        a + b + c + d + e + x == a + (b + (c + (d + (e + x)))),
{
    assert(a + b + c + d + e + x =~= a + (b + (c + (d + (e + x)))));
}

/// A variable-length integer tells where it ends and what it is.
pub proof fn lemma_varint_unambiguous(a: nat, x: Seq<u8>, b: nat, y: Seq<u8>)
    requires
        varint(a) + x == varint(b) + y,
    ensures
        a == b,
        x == y,
    decreases a,
{
    let left = varint(a) + x;
    let right = varint(b) + y;
    assert(left[0] == varint(a)[0]);
    assert(right[0] == varint(b)[0]);
    if a < 128 {
        assert(varint(a)[0] == a);
        assert(b < 128);
        assert(varint(b)[0] == b);
        lemma_cancel(varint(a), x, y);
    } else {
        assert(varint(a)[0] == 128 + a % 128);
        assert(b >= 128);
        assert(varint(b)[0] == 128 + b % 128);
        assert(left.skip(1) =~= varint(a / 128) + x);
        assert(right.skip(1) =~= varint(b / 128) + y);
        lemma_varint_unambiguous(a / 128, x, b / 128, y);
    }
}

/// A text on the wire tells where it ends and what it is.
pub proof fn lemma_text_unambiguous(s: Seq<char>, x: Seq<u8>, t: Seq<char>, y: Seq<u8>)
    requires
        text_wire(s) + x == text_wire(t) + y,
    ensures
        s == t,
        x == y,
{
    let a = encode_utf8(s);
    let b = encode_utf8(t);
    assert(text_wire(s) + x =~= varint(a.len()) + (a + x));
    assert(text_wire(t) + y =~= varint(b.len()) + (b + y));
    lemma_varint_unambiguous(a.len(), a + x, b.len(), b + y);
    lemma_split(a, x, b, y);
    encode_utf8_decode_utf8(s);
    encode_utf8_decode_utf8(t);
}

/// A flag on the wire tells where it ends and what it is.
pub proof fn lemma_flag_unambiguous(a: bool, x: Seq<u8>, b: bool, y: Seq<u8>)
    requires
        flag_wire(a) + x == flag_wire(b) + y,
    ensures
        a == b,
        x == y,
{
    assert((flag_wire(a) + x)[0] == flag_wire(a)[0]);
    assert((flag_wire(b) + y)[0] == flag_wire(b)[0]);
    lemma_split(flag_wire(a), x, flag_wire(b), y);
}

/// A byte string on the wire tells where it ends and what it is.
pub proof fn lemma_bytes_unambiguous(a: Seq<u8>, x: Seq<u8>, b: Seq<u8>, y: Seq<u8>)
    requires
        bytes_wire(a) + x == bytes_wire(b) + y,
    ensures
        a == b,
        x == y,
{
    assert(bytes_wire(a) + x =~= varint(a.len()) + (a + x));
    assert(bytes_wire(b) + y =~= varint(b.len()) + (b + y));
    lemma_varint_unambiguous(a.len(), a + x, b.len(), b + y);
    lemma_split(a, x, b, y);
}

/// Byte strings on the wire begin with the first of them.
proof fn lemma_each_bytes_from_the_front(items: Seq<Seq<u8>>)
    requires
        items.len() > 0,
    ensures
        each_bytes_wire(items) == bytes_wire(items[0]) + each_bytes_wire(items.skip(1)),
    decreases items.len(),
{
    if items.len() == 1 {
        assert(items.drop_last() =~= Seq::<Seq<u8>>::empty());
        assert(items.skip(1) =~= Seq::<Seq<u8>>::empty());
        assert(each_bytes_wire(items) =~= bytes_wire(items[0]) + each_bytes_wire(items.skip(1)));
    } else {
        lemma_each_bytes_from_the_front(items.drop_last());
        assert(items.drop_last().skip(1) =~= items.skip(1).drop_last());
        assert(items.drop_last()[0] == items[0]);
        assert(items.skip(1).last() == items.last());
        assert(each_bytes_wire(items) =~= bytes_wire(items[0]) + each_bytes_wire(items.skip(1)));
    }
}

/// As many byte strings on the wire tell where they end and what they are.
pub proof fn lemma_each_bytes_unambiguous(
    a: Seq<Seq<u8>>,
    x: Seq<u8>,
    b: Seq<Seq<u8>>,
    y: Seq<u8>,
)
    requires
        a.len() == b.len(),
        each_bytes_wire(a) + x == each_bytes_wire(b) + y,
    ensures
        a == b,
        x == y,
    decreases a.len(),
{
    if a.len() == 0 {
        assert(each_bytes_wire(a) + x =~= x);
        assert(each_bytes_wire(b) + y =~= y);
        assert(a =~= b);
    } else {
        lemma_each_bytes_from_the_front(a);
        lemma_each_bytes_from_the_front(b);
        let ra = each_bytes_wire(a.skip(1)) + x;
        let rb = each_bytes_wire(b.skip(1)) + y;
        assert(each_bytes_wire(a) + x =~= bytes_wire(a[0]) + ra);
        assert(each_bytes_wire(b) + y =~= bytes_wire(b[0]) + rb);
        lemma_bytes_unambiguous(a[0], ra, b[0], rb);
        lemma_each_bytes_unambiguous(a.skip(1), x, b.skip(1), y);
        assert forall|i: int| 0 <= i < a.len() implies a[i] == b[i] by {
            if i > 0 {
                assert(a.skip(1)[i - 1] == a[i]);
                assert(b.skip(1)[i - 1] == b[i]);
            }
        }
        assert(a =~= b);
    }
}

/// A record on the wire tells where it ends and which record it is: bytes
/// that begin with a record on the wire begin with no other record.
pub proof fn law_record_wire_is_unambiguous(
    label: Seq<char>,
    created: u64,
    done: bool,
    is_delete: bool,
    id: Seq<char>,
    rest: Seq<u8>,
    label2: Seq<char>,
    created2: u64,
    done2: bool,
    is_delete2: bool,
    id2: Seq<char>,
    rest2: Seq<u8>,
)
    requires
        record_wire(label, created, done, is_delete, id) + rest == record_wire(
            label2,
            created2,
            done2,
            is_delete2,
            id2,
        ) + rest2,
    ensures
        label == label2,
        created == created2,
        done == done2,
        is_delete == is_delete2,
        id == id2,
        rest == rest2,
{
    let a4 = text_wire(id) + rest;
    let b4 = text_wire(id2) + rest2;
    let a3 = flag_wire(is_delete) + a4;
    let b3 = flag_wire(is_delete2) + b4;
    let a2 = flag_wire(done) + a3;
    let b2 = flag_wire(done2) + b3;
    let a1 = varint(created as nat) + a2;
    let b1 = varint(created2 as nat) + b2;
    lemma_regroup(
        text_wire(label),
        varint(created as nat),
        flag_wire(done),
        flag_wire(is_delete),
        text_wire(id),
        rest,
    );
    lemma_regroup(
        text_wire(label2),
        varint(created2 as nat),
        flag_wire(done2),
        flag_wire(is_delete2),
        text_wire(id2),
        rest2,
    );
    lemma_text_unambiguous(label, a1, label2, b1);
    lemma_varint_unambiguous(created as nat, a2, created2 as nat, b2);
    lemma_flag_unambiguous(done, a3, done2, b3);
    lemma_flag_unambiguous(is_delete, a4, is_delete2, b4);
    lemma_text_unambiguous(id, rest, id2, rest2);
}

/// A ticket on the wire tells where it ends and which ticket it is: bytes
/// that begin with a ticket on the wire begin with no other ticket.
pub proof fn law_ticket_wire_is_unambiguous(
    topic: Seq<u8>,
    peers: Seq<Seq<u8>>,
    rest: Seq<u8>,
    topic2: Seq<u8>,
    peers2: Seq<Seq<u8>>,
    rest2: Seq<u8>,
)
    requires
        topic.len() == 32,
        topic2.len() == 32,
        ticket_wire(topic, peers) + rest == ticket_wire(topic2, peers2) + rest2,
    ensures
        topic == topic2,
        peers == peers2,
        rest == rest2,
{
    let a2 = each_bytes_wire(peers) + rest;
    let b2 = each_bytes_wire(peers2) + rest2;
    let a1 = varint(peers.len()) + a2;
    let b1 = varint(peers2.len()) + b2;
    assert(ticket_wire(topic, peers) + rest =~= topic + a1);
    assert(ticket_wire(topic2, peers2) + rest2 =~= topic2 + b1);
    lemma_split(topic, a1, topic2, b1);
    lemma_varint_unambiguous(peers.len(), a2, peers2.len(), b2);
    lemma_each_bytes_unambiguous(peers, rest, peers2, rest2);
}

} // verus!
