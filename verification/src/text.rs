//! Bytes as text that a person can pass on: base 32 without padding, and the
//! case of ASCII letters.
//!
//! The bytes are read as one row of bits, the most significant bit of the
//! first byte first. Every five bits give one symbol. Where the last symbol
//! lacks bits, zeros stand in for them.
//!
//! Four functions of this file are not proved: `base32_encode` and
//! `base32_decode`, which call `data_encoding`, and `ascii_uppercase` and
//! `make_ascii_lowercase`, which call the standard library. Each states what
//! the outside code does.

use vstd::prelude::*;
use vstd::utf8::encode_utf8;

verus! {

/// The error type of `data_encoding` for text that it cannot decode.
#[verifier::external_type_specification]
#[verifier::external_body]
pub struct ExDecodeError(data_encoding::DecodeError);

/// The weight of bit `m` of a byte, bit 0 being the least significant.
pub open spec fn weight(m: int) -> int {
    if m == 0 {
        1
    } else if m == 1 {
        2
    } else if m == 2 {
        4
    } else if m == 3 {
        8
    } else if m == 4 {
        16
    } else if m == 5 {
        32
    } else if m == 6 {
        64
    } else {
        128
    }
}

/// Bit `k` of `bytes`, counted from the most significant bit of the first
/// byte. Behind the last byte every bit is 0.
pub open spec fn bit_at(bytes: Seq<u8>, k: int) -> int {
    if 0 <= k < 8 * bytes.len() {
        (bytes[k / 8] as int / weight(7 - k % 8)) % 2
    } else {
        0
    }
}

/// The number that the five bits from bit `5 * i` on stand for.
pub open spec fn group_at(bytes: Seq<u8>, i: int) -> int {
    16 * bit_at(bytes, 5 * i) + 8 * bit_at(bytes, 5 * i + 1) + 4 * bit_at(bytes, 5 * i + 2) + 2
        * bit_at(bytes, 5 * i + 3) + bit_at(bytes, 5 * i + 4)
}

/// The symbol for a number below 32: `A` to `Z` for 0 to 25, `2` to `7` for
/// 26 to 31.
pub open spec fn symbol(v: int) -> char {
    if v < 26 {
        ((65 + v) as u8) as char
    } else {
        ((24 + v) as u8) as char
    }
}

/// The number of symbols that stand for `n` bytes.
pub open spec fn base32_len(n: nat) -> nat {
    ((8 * n + 4) / 5) as nat
}

/// Bytes in base 32 without padding.
pub open spec fn base32_text(bytes: Seq<u8>) -> Seq<char> {
    Seq::new(base32_len(bytes.len()), |i: int| symbol(group_at(bytes, i)))
}

/// Whether `c` is one of the 32 symbols of base 32: `A` to `Z`, `2` to `7`.
pub open spec fn is_base32_symbol(c: char) -> bool {
    ('A' <= c && c <= 'Z') || ('2' <= c && c <= '7')
}

/// Whether `s` is made of the symbols of base 32.
pub open spec fn is_base32(s: Seq<char>) -> bool {
    forall|i: int| 0 <= i < s.len() ==> is_base32_symbol(#[trigger] s[i])
}

/// `c` with a lower-case ASCII letter replaced by its upper-case form.
pub open spec fn upper(c: char) -> char {
    if 'a' <= c && c <= 'z' {
        ((c as u32) - 32) as char
    } else {
        c
    }
}

/// `c` with an upper-case ASCII letter replaced by its lower-case form.
pub open spec fn lower(c: char) -> char {
    if 'A' <= c && c <= 'Z' {
        ((c as u32) + 32) as char
    } else {
        c
    }
}

/// `s` with every lower-case ASCII letter in upper case.
pub open spec fn uppercase(s: Seq<char>) -> Seq<char> {
    s.map_values(|c: char| upper(c))
}

/// `s` with every upper-case ASCII letter in lower case.
pub open spec fn lowercase(s: Seq<char>) -> Seq<char> {
    s.map_values(|c: char| lower(c))
}

/// The greatest number of bytes that `base32_encode` takes.
pub open spec fn max_encodable() -> nat {
    (usize::MAX / 512) as nat
}

/// The greatest length of a text that `base32_decode` takes, in bytes of its
/// UTF-8 form.
pub open spec fn max_decodable() -> nat {
    (usize::MAX / 8) as nat
}

/// Calls `data_encoding::BASE32_NOPAD.encode`.
///
/// Claimed of it: the text is the bytes in base 32 without padding. Input of
/// more than `usize::MAX / 512` bytes is left out, on which the outside
/// function may panic.
#[verifier::external_body]
pub(crate) fn base32_encode(bytes: &[u8]) -> (text: String)
    requires
        bytes@.len() <= max_encodable(),
    ensures
        text@ == base32_text(bytes@),
{
    data_encoding::BASE32_NOPAD.encode(bytes)
}

/// Calls `data_encoding::BASE32_NOPAD.decode` on the UTF-8 form of `text`.
///
/// Claimed of it: text that is some bytes in base 32 without padding gives
/// those bytes, and no other text gives any bytes. Text of more than
/// `usize::MAX / 8` bytes is left out, on which the outside function panics.
#[verifier::external_body]
pub(crate) fn base32_decode(text: &str) -> (r: Result<Vec<u8>, data_encoding::DecodeError>)
    requires
        encode_utf8(text@).len() <= max_decodable(),
    ensures
        r matches Ok(b) ==> text@ == base32_text(b@),
        (forall|b: Seq<u8>| text@ == #[trigger] base32_text(b) ==> r is Ok),
{
    data_encoding::BASE32_NOPAD.decode(text.as_bytes())
}

/// Calls `str::to_ascii_uppercase`.
///
/// Claimed of it: the letters `a` to `z` come out as `A` to `Z`, and every
/// other character as it is.
#[verifier::external_body]
pub(crate) fn ascii_uppercase(s: &str) -> (r: String)
    ensures
        r@ == uppercase(s@),
{
    s.to_ascii_uppercase()
}

/// Calls `str::make_ascii_lowercase` on the text.
///
/// Claimed of it: the letters `A` to `Z` become `a` to `z`, and every other
/// character stays as it is.
#[verifier::external_body]
pub(crate) fn make_ascii_lowercase(s: &mut String)
    ensures
        final(s)@ == lowercase(old(s)@),
{
    s.make_ascii_lowercase();
}

/// A bit is 0 or 1.
proof fn lemma_bit(bytes: Seq<u8>, k: int)
    ensures
        0 <= bit_at(bytes, k) <= 1,
{
}

/// Five bits stand for a number below 32.
proof fn lemma_group(bytes: Seq<u8>, i: int)
    ensures
        0 <= group_at(bytes, i) < 32,
{
    lemma_bit(bytes, 5 * i);
    lemma_bit(bytes, 5 * i + 1);
    lemma_bit(bytes, 5 * i + 2);
    lemma_bit(bytes, 5 * i + 3);
    lemma_bit(bytes, 5 * i + 4);
}

/// Bytes in base 32 are made of the symbols of base 32.
pub proof fn lemma_base32_symbols(bytes: Seq<u8>)
    ensures
        is_base32(base32_text(bytes)),
{
    assert forall|i: int| 0 <= i < base32_text(bytes).len() implies is_base32_symbol(
        #[trigger] base32_text(bytes)[i],
    ) by {
        lemma_group(bytes, i);
    }
}

/// Text made of the symbols of base 32 is the same after it has been put in
/// lower case and then in upper case.
pub proof fn lemma_upper_of_lower(s: Seq<char>)
    requires
        is_base32(s),
    ensures
        uppercase(lowercase(s)) == s,
{
    assert forall|i: int| 0 <= i < s.len() implies upper(lower(#[trigger] s[i])) == s[i] by {
        let c = s[i];
        assert(is_base32_symbol(c));
    }
    assert(uppercase(lowercase(s)) =~= s);
}

/// Putting text in upper case leaves the length of its UTF-8 form as it is.
pub proof fn lemma_upper_keeps_length(s: Seq<char>)
    ensures
        encode_utf8(uppercase(s)).len() == encode_utf8(s).len(),
    decreases s.len(),
{
    if s.len() > 0 {
        lemma_upper_keeps_length(s.drop_first());
        assert(uppercase(s).drop_first() =~= uppercase(s.drop_first()));
        assert(uppercase(s)[0] == upper(s[0]));
    }
}

/// Putting text in upper case twice is putting it in upper case once.
pub proof fn lemma_upper_twice(s: Seq<char>)
    ensures
        uppercase(uppercase(s)) == uppercase(s),
{
    assert(uppercase(uppercase(s)) =~= uppercase(s));
}

/// A byte is the sum of its bits.
proof fn lemma_byte_of_bits(x: u8)
    ensures
        x as int == 128 * ((x as int / 128) % 2) + 64 * ((x as int / 64) % 2) + 32 * ((x as int
            / 32) % 2) + 16 * ((x as int / 16) % 2) + 8 * ((x as int / 8) % 2) + 4 * ((x as int
            / 4) % 2) + 2 * ((x as int / 2) % 2) + (x as int) % 2,
{
    assert(x == 128 * ((x / 128) % 2) + 64 * ((x / 64) % 2) + 32 * ((x / 32) % 2) + 16 * ((x / 16)
        % 2) + 8 * ((x / 8) % 2) + 4 * ((x / 4) % 2) + 2 * ((x / 2) % 2) + x % 2) by (bit_vector);
}

/// Texts of the same length stand for as many bytes.
proof fn lemma_base32_len(n: nat, m: nat)
    requires
        base32_len(n) == base32_len(m),
    ensures
        n == m,
{
}

/// Bytes with the same text have the same bits.
proof fn lemma_same_bit(a: Seq<u8>, b: Seq<u8>, k: int)
    requires
        base32_text(a) == base32_text(b),
        a.len() == b.len(),
        0 <= k < 8 * a.len(),
    ensures
        bit_at(a, k) == bit_at(b, k),
{
    let i = k / 5;
    assert(0 <= i < base32_len(a.len()));
    assert(base32_text(a)[i] == symbol(group_at(a, i)));
    assert(base32_text(b)[i] == symbol(group_at(b, i)));
    lemma_group(a, i);
    lemma_group(b, i);
    assert(group_at(a, i) == group_at(b, i));
    lemma_bit(a, 5 * i);
    lemma_bit(a, 5 * i + 1);
    lemma_bit(a, 5 * i + 2);
    lemma_bit(a, 5 * i + 3);
    lemma_bit(a, 5 * i + 4);
    lemma_bit(b, 5 * i);
    lemma_bit(b, 5 * i + 1);
    lemma_bit(b, 5 * i + 2);
    lemma_bit(b, 5 * i + 3);
    lemma_bit(b, 5 * i + 4);
}

/// Bit `m` of byte `j`, counted from the most significant bit of the byte.
proof fn lemma_bit_of_byte(bytes: Seq<u8>, j: int, m: int)
    requires
        0 <= j < bytes.len(),
        0 <= m < 8,
    ensures
        bit_at(bytes, 8 * j + m) == (bytes[j] as int / weight(7 - m)) % 2,
{
    let k = 8 * j + m;
    assert(k / 8 == j && k % 8 == m) by (nonlinear_arith)
        requires
            k == 8 * j + m,
            0 <= m < 8,
    ;
}

/// Bytes with the same text have the same byte at every place.
proof fn lemma_same_byte(a: Seq<u8>, b: Seq<u8>, j: int)
    requires
        base32_text(a) == base32_text(b),
        a.len() == b.len(),
        0 <= j < a.len(),
    ensures
        a[j] == b[j],
{
    let x = a[j] as int;
    let y = b[j] as int;
    assert((x / 128) % 2 == (y / 128) % 2) by {
        lemma_same_bit(a, b, 8 * j);
        lemma_bit_of_byte(a, j, 0);
        lemma_bit_of_byte(b, j, 0);
    }
    assert((x / 64) % 2 == (y / 64) % 2) by {
        lemma_same_bit(a, b, 8 * j + 1);
        lemma_bit_of_byte(a, j, 1);
        lemma_bit_of_byte(b, j, 1);
    }
    assert((x / 32) % 2 == (y / 32) % 2) by {
        lemma_same_bit(a, b, 8 * j + 2);
        lemma_bit_of_byte(a, j, 2);
        lemma_bit_of_byte(b, j, 2);
    }
    assert((x / 16) % 2 == (y / 16) % 2) by {
        lemma_same_bit(a, b, 8 * j + 3);
        lemma_bit_of_byte(a, j, 3);
        lemma_bit_of_byte(b, j, 3);
    }
    assert((x / 8) % 2 == (y / 8) % 2) by {
        lemma_same_bit(a, b, 8 * j + 4);
        lemma_bit_of_byte(a, j, 4);
        lemma_bit_of_byte(b, j, 4);
    }
    assert((x / 4) % 2 == (y / 4) % 2) by {
        lemma_same_bit(a, b, 8 * j + 5);
        lemma_bit_of_byte(a, j, 5);
        lemma_bit_of_byte(b, j, 5);
    }
    assert((x / 2) % 2 == (y / 2) % 2) by {
        lemma_same_bit(a, b, 8 * j + 6);
        lemma_bit_of_byte(a, j, 6);
        lemma_bit_of_byte(b, j, 6);
    }
    assert(x % 2 == y % 2) by {
        lemma_same_bit(a, b, 8 * j + 7);
        lemma_bit_of_byte(a, j, 7);
        lemma_bit_of_byte(b, j, 7);
    }
    lemma_byte_of_bits(a[j]);
    lemma_byte_of_bits(b[j]);
}

/// Base 32 can be read in one way only: bytes with the same text are the
/// same bytes.
pub proof fn law_base32_is_unambiguous(a: Seq<u8>, b: Seq<u8>)
    requires
        base32_text(a) == base32_text(b),
    ensures
        a == b,
{
    assert(base32_text(a).len() == base32_len(a.len()));
    assert(base32_text(b).len() == base32_len(b.len()));
    lemma_base32_len(a.len(), b.len());
    assert forall|j: int| 0 <= j < a.len() implies a[j] == b[j] by {
        lemma_same_byte(a, b, j);
    }
    assert(a =~= b);
}

} // verus!
