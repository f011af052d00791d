//! The ticket by which a list is shared.
//!
//! A ticket names the topic of a document and tells where peers that hold
//! the document may be reached. It is passed on as text: the ticket on the
//! wire in base 32 without padding, in lower case.

use crate::codec::{postcard_ticket, read_ticket, write_ticket};
use crate::error::ListError;
use crate::text::{
    ascii_uppercase, base32_decode, base32_encode, base32_len, base32_text, is_base32_symbol,
    law_base32_is_unambiguous, lemma_base32_symbols, lemma_upper_keeps_length,
    lemma_upper_of_lower, lemma_upper_twice, lowercase, make_ascii_lowercase, max_decodable,
    max_encodable, upper, uppercase,
};
use crate::wire::{cut_short, has_prefix, ticket_wire};
use vstd::prelude::*;
use vstd::utf8::{encode_utf8, is_ascii_chars, is_ascii_chars_encode_utf8};

verus! {

/// What it takes to join a list.
#[derive(Clone, Debug, PartialEq, Eq)]
pub struct Ticket {
    /// The topic under which the peers of the document meet.
    pub topic: [u8; 32],
    /// For each peer that may be asked for the document, the descriptor of
    /// its addresses, in the order in which the peers are to be tried.
    pub peers: Vec<Vec<u8>>,
}

/// A ticket as a mathematical value.
pub struct TicketView {
    pub topic: Seq<u8>,
    pub peers: Seq<Seq<u8>>,
}

impl View for Ticket {
    type V = TicketView;

    open spec fn view(&self) -> TicketView {
        TicketView { topic: self.topic@, peers: self.peers.deep_view() }
    }
}

impl TicketView {
    /// Whether this is the value of a ticket: the topic has 32 bytes.
    pub open spec fn valid(self) -> bool {
        self.topic.len() == 32
    }

    /// The ticket on the wire.
    pub open spec fn wire(self) -> Seq<u8> {
        ticket_wire(self.topic, self.peers)
    }

    /// The ticket as text.
    pub open spec fn text(self) -> Seq<char> {
        lowercase(base32_text(self.wire()))
    }
}

/// The ticket that bytes hold, or `None` where they are malformed.
///
/// Bytes that begin with a ticket on the wire hold that ticket, whatever
/// follows. Bytes that end before a ticket on the wire does hold none. For
/// all other bytes, `postcard` decides.
pub open spec fn ticket_of_bytes(bytes: Seq<u8>) -> Option<TicketView> {
    if exists|t: TicketView| t.valid() && has_prefix(#[trigger] t.wire(), bytes) {
        Some(choose|t: TicketView| t.valid() && has_prefix(#[trigger] t.wire(), bytes))
    } else if exists|t: TicketView| t.valid() && cut_short(bytes, #[trigger] t.wire()) {
        None
    } else {
        match postcard_ticket(bytes) {
            Some(f) => Some(TicketView { topic: f.0, peers: f.1 }),
            None => None,
        }
    }
}

/// Bytes begin with one ticket on the wire at most.
pub proof fn lemma_one_ticket_in_front(bytes: Seq<u8>, a: TicketView, b: TicketView)
    requires
        a.valid(),
        b.valid(),
        has_prefix(a.wire(), bytes),
        has_prefix(b.wire(), bytes),
    ensures
        a == b,
{
    let rest_a = bytes.subrange(a.wire().len() as int, bytes.len() as int);
    let rest_b = bytes.subrange(b.wire().len() as int, bytes.len() as int);
    assert(bytes =~= a.wire() + rest_a);
    assert(bytes =~= b.wire() + rest_b);
    crate::wire_laws::law_ticket_wire_is_unambiguous(
        a.topic,
        a.peers,
        rest_a,
        b.topic,
        b.peers,
        rest_b,
    );
}

/// What was written is read again: bytes that begin with a ticket on the
/// wire hold that ticket, whatever follows.
pub proof fn law_written_ticket_is_read(t: TicketView, rest: Seq<u8>)
    requires
        t.valid(),
    ensures
        ticket_of_bytes(t.wire() + rest) == Some(t),
{
    let bytes = t.wire() + rest;
    assert(bytes.subrange(0, t.wire().len() as int) =~= t.wire());
    assert(has_prefix(t.wire(), bytes));
    let c = choose|c: TicketView| c.valid() && has_prefix(#[trigger] c.wire(), bytes);
    lemma_one_ticket_in_front(bytes, t, c);
}

/// The ticket that a text holds, or `None` where the text is no base 32 or
/// holds no ticket. The case of letters does not matter: the text is read
/// in upper case.
pub open spec fn ticket_of_text(text: Seq<char>) -> Option<TicketView> {
    if exists|bytes: Seq<u8>| #[trigger] base32_text(bytes) == uppercase(text) {
        ticket_of_bytes(choose|bytes: Seq<u8>| #[trigger] base32_text(bytes) == uppercase(text))
    } else {
        None
    }
}

/// What reading a text gives: text of more than `max_decodable` bytes is
/// refused unread, other text gives the ticket that it holds, or
/// `ListError::Decode` where it holds none.
pub open spec fn read_text(text: Seq<char>) -> Result<TicketView, ListError> {
    if encode_utf8(text).len() > max_decodable() {
        Err(ListError::TextTooLong)
    } else {
        match ticket_of_text(text) {
            Some(t) => Ok(t),
            None => Err(ListError::Decode),
        }
    }
}

/// The text of a ticket has one byte for every five bits of the ticket on
/// the wire, the last five filled up.
pub proof fn lemma_text_length(t: TicketView)
    ensures
        encode_utf8(t.text()).len() == base32_len(t.wire().len()),
{
    let upper = base32_text(t.wire());
    lemma_base32_symbols(t.wire());
    assert forall|i: int| 0 <= i < t.text().len() implies '\0' <= #[trigger] t.text()[i]
        <= '\u{7f}' by {
        assert(is_base32_symbol(upper[i]));
    }
    assert(is_ascii_chars(t.text()));
    is_ascii_chars_encode_utf8(t.text());
}

/// What `to_text` wrote, `from_text` reads: the text of a ticket that is
/// small enough to be written is short enough to be read, and gives the
/// ticket back.
pub proof fn law_written_text_is_read(t: TicketView)
    requires
        t.valid(),
        t.wire().len() <= max_encodable(),
    ensures
        read_text(t.text()) is Ok,
        read_text(t.text())->Ok_0 == t,
{
    lemma_text_length(t);
    law_text_round_trip(t);
}

/// The text of a ticket gives the ticket back.
pub proof fn law_text_round_trip(t: TicketView)
    requires
        t.valid(),
    ensures
        ticket_of_text(t.text()) == Some(t),
{
    lemma_base32_symbols(t.wire());
    lemma_upper_of_lower(base32_text(t.wire()));
    let bytes = choose|bytes: Seq<u8>| #[trigger] base32_text(bytes) == uppercase(t.text());
    law_base32_is_unambiguous(bytes, t.wire());
    assert(t.wire() =~= t.wire() + Seq::<u8>::empty());
    law_written_ticket_is_read(t, Seq::empty());
}

/// The case of the letters of a text does not matter.
pub proof fn law_case_does_not_matter(text: Seq<char>, other: Seq<char>)
    requires
        uppercase(text) == uppercase(other),
    ensures
        ticket_of_text(text) == ticket_of_text(other),
{
}

/// The text of a ticket gives the ticket back in upper case too.
pub proof fn law_text_round_trip_in_upper_case(t: TicketView)
    requires
        t.valid(),
    ensures
        ticket_of_text(uppercase(t.text())) == Some(t),
{
    lemma_upper_twice(t.text());
    law_case_does_not_matter(uppercase(t.text()), t.text());
    law_text_round_trip(t);
}

/// Text with a character that is no symbol of base 32, in either case, holds
/// no ticket.
pub proof fn law_foreign_character_is_refused(text: Seq<char>, i: int)
    requires
        0 <= i < text.len(),
        !is_base32_symbol(upper(text[i])),
    ensures
        ticket_of_text(text) is None,
{
    if exists|bytes: Seq<u8>| #[trigger] base32_text(bytes) == uppercase(text) {
        let bytes = choose|bytes: Seq<u8>| #[trigger] base32_text(bytes) == uppercase(text);
        lemma_base32_symbols(bytes);
        assert(uppercase(text)[i] == upper(text[i]));
    }
}

/// A ticket that was cut short is no ticket: bytes that end before a ticket
/// on the wire does are malformed.
pub proof fn law_cut_short_ticket_is_refused(t: TicketView, bytes: Seq<u8>)
    requires
        t.valid(),
        cut_short(bytes, t.wire()),
    ensures
        ticket_of_bytes(bytes) is None,
{
    if exists|a: TicketView| a.valid() && has_prefix(#[trigger] a.wire(), bytes) {
        let a = choose|a: TicketView| a.valid() && has_prefix(#[trigger] a.wire(), bytes);
        let behind_a = bytes.subrange(a.wire().len() as int, bytes.len() as int);
        let missing = t.wire().subrange(bytes.len() as int, t.wire().len() as int);
        assert(t.wire() =~= a.wire() + (behind_a + missing));
        assert(t.wire() =~= t.wire() + Seq::<u8>::empty());
        crate::wire_laws::law_ticket_wire_is_unambiguous(
            a.topic,
            a.peers,
            behind_a + missing,
            t.topic,
            t.peers,
            Seq::empty(),
        );
        assert((behind_a + missing).len() > 0);
    }
}

/// The bytes of a ticket hold one ticket and no other: tickets with the same
/// form on the wire are the same ticket.
pub proof fn law_wire_holds_one_ticket(a: TicketView, b: TicketView)
    requires
        a.valid(),
        b.valid(),
        a.wire() == b.wire(),
    ensures
        a == b,
{
    assert(a.wire().subrange(0, a.wire().len() as int) =~= a.wire());
    lemma_one_ticket_in_front(a.wire(), a, b);
}

/// Bytes as text: base 32 without padding, in lower case.
fn text_of_bytes(bytes: &[u8]) -> (text: String)
    requires
        bytes@.len() <= max_encodable(),
    ensures
        text@ == lowercase(base32_text(bytes@)),
{
    let mut text = base32_encode(bytes);
    make_ascii_lowercase(&mut text);
    text
}

impl Ticket {
    /// Reads a ticket from its form on the wire. Bytes that follow the
    /// ticket are ignored.
    pub fn from_bytes(bytes: &[u8]) -> (r: Result<Ticket, ListError>)
        ensures
            match r {
                Ok(t) => ticket_of_bytes(bytes@) == Some(t@) && t@.valid(),
                Err(e) => e == ListError::Decode && ticket_of_bytes(bytes@) is None,
            },
    {
        let r = read_ticket(bytes);
        proof {
            if exists|t: TicketView| t.valid() && has_prefix(#[trigger] t.wire(), bytes@) {
                let t = choose|t: TicketView| t.valid() && has_prefix(#[trigger] t.wire(), bytes@);
                let rest = bytes@.subrange(t.wire().len() as int, bytes@.len() as int);
                assert(bytes@ =~= ticket_wire(t.topic, t.peers) + rest);
            } else if exists|t: TicketView| t.valid() && cut_short(bytes@, #[trigger] t.wire()) {
                let t = choose|t: TicketView| t.valid() && cut_short(bytes@, #[trigger] t.wire());
                assert(cut_short(bytes@, ticket_wire(t.topic, t.peers)));
            }
        }
        match r {
            Ok(f) => {
                let (topic, peers) = f;
                Ok(Ticket { topic, peers })
            },
            Err(_) => Err(ListError::Decode),
        }
    }

    /// The ticket on the wire.
    pub fn to_bytes(&self) -> (bytes: Vec<u8>)
        ensures
            bytes@ == self@.wire(),
    {
        write_ticket(&self.topic, &self.peers).unwrap()
    }

    /// The ticket as text, for display and for passing on: base 32 without
    /// padding, in lower case.
    pub fn to_text(&self) -> (text: String)
        requires
            self@.wire().len() <= max_encodable(),
        ensures
            text@ == self@.text(),
    {
        let bytes = self.to_bytes();
        text_of_bytes(bytes.as_slice())
    }

    /// The ticket as text, or `None` for a ticket too large for `to_text`.
    pub fn try_to_text(&self) -> (r: Option<String>)
        ensures
            r is Some <==> self@.wire().len() <= max_encodable(),
            r matches Some(text) ==> text@ == self@.text(),
    {
        let bytes = self.to_bytes();
        if bytes.len() > usize::MAX / 512 {
            return None;
        }
        Some(text_of_bytes(bytes.as_slice()))
    }

    /// Reads a ticket from text, in upper or lower case. Text of more than
    /// `usize::MAX / 8` bytes fails with `ListError::TextTooLong`, whatever
    /// it holds. Other text that is no base 32, or that holds no ticket,
    /// fails with `ListError::Decode`.
    pub fn from_text(text: &str) -> (r: Result<Ticket, ListError>)
        ensures
            match read_text(text@) {
                Ok(t) => r is Ok && r->Ok_0@ == t && t.valid(),
                Err(e) => r is Err && r->Err_0 == e,
            },
    {
        if text.as_bytes().len() > usize::MAX / 8 {
            return Err(ListError::TextTooLong);
        }
        let upper = ascii_uppercase(text);
        proof {
            lemma_upper_keeps_length(text@);
        }
        match base32_decode(upper.as_str()) {
            Err(_) => Err(ListError::Decode),
            Ok(bytes) => {
                proof {
                    let chosen = choose|b: Seq<u8>| #[trigger] base32_text(b) == uppercase(text@);
                    law_base32_is_unambiguous(chosen, bytes@);
                }
                Ticket::from_bytes(bytes.as_slice())
            },
        }
    }
}

} // verus!
