//! A streaming UTF-8 decoder and a line reader built on top of it.
//!
//! Bytes are pulled one at a time from a [`ByteSource`], reassembled into
//! Unicode scalar values following UTF-8's bit-packing rules, and optionally
//! accumulated into lines. Decoding is strictly forward: bytes consumed by a
//! failed multi-byte sequence are never pushed back, and source exhaustion,
//! read failure and malformed input all collapse into a single "no more
//! output" signal.

use vstd::prelude::*;
use vstd::utf8::*;

verus! {

/// The `char` for a `u32`, when that `u32` is a Unicode scalar value.
pub open spec fn scalar_to_char(v: u32) -> Option<char> {
    if is_scalar(v) {
        Some(v as char)
    } else {
        None
    }
}

/// Relies on `char::from_u32`: returns the character with the given value
/// exactly when the value is a Unicode scalar value (not in the surrogate
/// range, at most 0x10FFFF).
pub assume_specification[ char::from_u32 ](v: u32) -> (r: Option<char>)
    ensures
        r == scalar_to_char(v),
;

/// A pull-one-byte source of sequential bytes.
///
/// `remaining()` is the sequence of bytes the source will still deliver; a
/// source that fails mid-stream is modelled as one whose `remaining()` ends at
/// the failure point, since failure and exhaustion are indistinguishable to
/// the decoder.
pub trait ByteSource {
    /// The bytes this source will still deliver, in order.
    spec fn remaining(&self) -> Seq<u8>;

    /// Deliver the next byte, or signal exhaustion.
    fn next_byte(&mut self) -> (r: Option<u8>)
        ensures
            old(self).remaining().len() == 0 ==> r is None && final(self).remaining()
                == old(self).remaining(),
            old(self).remaining().len() > 0 ==> r == Some(old(self).remaining()[0])
                && final(self).remaining() == old(self).remaining().drop_first(),
    ;
}

/// An in-memory [`ByteSource`]: an owned byte buffer with a forward-only
/// cursor.
pub struct ByteCursor {
    bytes: Vec<u8>,
    pos: usize,
}

impl ByteCursor {
    pub fn new(bytes: Vec<u8>) -> (r: ByteCursor)
        ensures
            r.remaining() == bytes@,
    {
        let r = ByteCursor { bytes, pos: 0 };
        proof {
            assert(r.remaining() =~= r.bytes@);
        }
        r
    }
}

impl ByteSource for ByteCursor {
    closed spec fn remaining(&self) -> Seq<u8> {
        if self.pos <= self.bytes@.len() {
            self.bytes@.skip(self.pos as int)
        } else {
            Seq::empty()
        }
    }

    fn next_byte(&mut self) -> (r: Option<u8>) {
        if self.pos < self.bytes.len() {
            let b = self.bytes[self.pos];
            self.pos = self.pos + 1;
            proof {
                assert(final(self).remaining() =~= old(self).remaining().drop_first());
            }
            Some(b)
        } else {
            None
        }
    }
}

/// Keeps the top `bits` bits of `byte` and clears the rest.
fn hi(byte: u8, bits: u8) -> (r: u8)
    requires
        bits <= 8,
    ensures
        r == byte & hi_mask(bits),
{
    let mask: u8 = match bits {
        0 => 0b0000_0000,
        1 => 0b1000_0000,
        2 => 0b1100_0000,
        3 => 0b1110_0000,
        4 => 0b1111_0000,
        5 => 0b1111_1000,
        6 => 0b1111_1100,
        7 => 0b1111_1110,
        _ => 0b1111_1111,
    };
    byte & mask
}

/// The mask kept by [`hi`].
spec fn hi_mask(bits: u8) -> u8 {
    match bits {
        0 => 0b0000_0000u8,
        1 => 0b1000_0000u8,
        2 => 0b1100_0000u8,
        3 => 0b1110_0000u8,
        4 => 0b1111_0000u8,
        5 => 0b1111_1000u8,
        6 => 0b1111_1100u8,
        7 => 0b1111_1110u8,
        _ => 0b1111_1111u8,
    }
}

/// Keeps the low `bits` bits of `byte` and clears the rest.
fn lo(byte: u8, bits: u8) -> (r: u8)
    requires
        bits <= 8,
    ensures
        r == byte & lo_mask(bits),
{
    let mask: u8 = match bits {
        0 => 0b0000_0000,
        1 => 0b0000_0001,
        2 => 0b0000_0011,
        3 => 0b0000_0111,
        4 => 0b0000_1111,
        5 => 0b0001_1111,
        6 => 0b0011_1111,
        7 => 0b0111_1111,
        _ => 0b1111_1111,
    };
    byte & mask
}

/// The mask kept by [`lo`].
spec fn lo_mask(bits: u8) -> u8 {
    match bits {
        0 => 0b0000_0000u8,
        1 => 0b0000_0001u8,
        2 => 0b0000_0011u8,
        3 => 0b0000_0111u8,
        4 => 0b0000_1111u8,
        5 => 0b0001_1111u8,
        6 => 0b0011_1111u8,
        7 => 0b0111_1111u8,
        _ => 0b1111_1111u8,
    }
}

/// True when `byte` is a single-byte (ASCII) encoding: top bit `0`.
fn is_ascii(byte: u8) -> (r: bool)
    ensures
        r == is_leading_byte_width_1(byte),
{
    proof {
        utf8_byte_ranges_bitwise(byte);
    }
    hi(byte, 1) == 0
}

/// True when `byte` is a continuation byte: top bits `10`.
fn starts_with_10(byte: u8) -> (r: bool)
    ensures
        r == is_continuation_byte(byte),
{
    proof {
        utf8_byte_ranges_bitwise(byte);
    }
    hi(byte, 2) == 0x80
}

/// True when the pair forms a two-byte sequence: `110xxxxx 10xxxxxx`.
fn is_two_bytes(first: u8, second: u8) -> (r: bool)
    ensures
        r == (is_leading_byte_width_2(first) && is_continuation_byte(second)),
{
    proof {
        utf8_byte_ranges_bitwise(first);
    }
    hi(first, 3) == 0xC0 && starts_with_10(second)
}

/// True when the triple forms a three-byte sequence: `1110xxxx` then two
/// continuation bytes.
fn is_three_bytes(first: u8, second: u8, third: u8) -> (r: bool)
    ensures
        r == (is_leading_byte_width_3(first) && is_continuation_byte(second)
            && is_continuation_byte(third)),
{
    proof {
        utf8_byte_ranges_bitwise(first);
    }
    hi(first, 4) == 0xE0 && starts_with_10(second) && starts_with_10(third)
}

/// True when the quadruple forms a four-byte sequence: `11110xxx` then three
/// continuation bytes.
fn is_four_bytes(first: u8, second: u8, third: u8, fourth: u8) -> (r: bool)
    ensures
        r == (is_leading_byte_width_4(first) && is_continuation_byte(second)
            && is_continuation_byte(third) && is_continuation_byte(fourth)),
{
    proof {
        utf8_byte_ranges_bitwise(first);
    }
    hi(first, 5) == 0xF0 && starts_with_10(second) && starts_with_10(third) && starts_with_10(
        fourth,
    )
}

/// How many bytes one decode attempt consumes from the front of `s`.
///
/// A successful decode consumes exactly the sequence's length; a failed one
/// consumes every byte pulled before the failure was discovered, which is
/// permanently lost (no pushback).
pub open spec fn decode_len(s: Seq<u8>) -> int {
    if s.len() == 0 {
        0
    } else if is_leading_byte_width_1(s[0]) {
        1
    } else if s.len() == 1 {
        1
    } else if is_leading_byte_width_2(s[0]) && is_continuation_byte(s[1]) {
        2
    } else if s.len() == 2 {
        2
    } else if is_leading_byte_width_3(s[0]) && is_continuation_byte(s[1]) && is_continuation_byte(
        s[2],
    ) {
        3
    } else if s.len() == 3 {
        3
    } else {
        4
    }
}

/// What one decode attempt on the front of `s` yields: the scalar value
/// assembled from the first recognized lead/continuation pattern, provided it
/// is a legal Unicode scalar value; `None` on exhaustion, on a malformed
/// sequence, and on an assembled value outside the scalar range.
pub open spec fn decoded_scalar(s: Seq<u8>) -> Option<char> {
    if s.len() == 0 {
        None
    } else if is_leading_byte_width_1(s[0]) {
        scalar_to_char(codepoint_width_1(s[0]))
    } else if s.len() == 1 {
        None
    } else if is_leading_byte_width_2(s[0]) && is_continuation_byte(s[1]) {
        scalar_to_char(codepoint_width_2(s[0], s[1]))
    } else if s.len() == 2 {
        None
    } else if is_leading_byte_width_3(s[0]) && is_continuation_byte(s[1]) && is_continuation_byte(
        s[2],
    ) {
        scalar_to_char(codepoint_width_3(s[0], s[1], s[2]))
    } else if s.len() == 3 {
        None
    } else if is_leading_byte_width_4(s[0]) && is_continuation_byte(s[1]) && is_continuation_byte(
        s[2],
    ) && is_continuation_byte(s[3]) {
        scalar_to_char(codepoint_width_4(s[0], s[1], s[2], s[3]))
    } else {
        None
    }
}

/// One decode attempt consumes at least one byte when any is available, and
/// never more than are available.
pub proof fn lemma_decode_len_bounds(s: Seq<u8>)
    ensures
        0 <= decode_len(s) <= s.len(),
        s.len() > 0 ==> 1 <= decode_len(s),
        decoded_scalar(s) is Some ==> 1 <= decode_len(s),
{
}

/// One line-read attempt on the bytes `s`: the characters of the line (the
/// terminator excluded) and the number of bytes consumed.
///
/// A `'\n'` ends the line; a `'\r'` ends it only when the next decoded scalar
/// is `'\n'` (both consumed); otherwise the `'\r'` is kept and the look-ahead
/// scalar is consumed but discarded. Exhaustion or a decode failure also ends
/// the line.
pub open spec fn line_step(s: Seq<u8>) -> (Seq<char>, int)
    decreases s.len(),
{
    let n = decode_len(s);
    match decoded_scalar(s) {
        None => (Seq::empty(), n),
        Some(c) => if c == '\n' {
            (Seq::empty(), n)
        } else if c == '\r' {
            let s2 = s.skip(n);
            let n2 = decode_len(s2);
            if decoded_scalar(s2) == Some('\n') {
                (Seq::empty(), n + n2)
            } else {
                let rest = line_step(s2.skip(n2));
                (seq!['\r'] + rest.0, n + n2 + rest.1)
            }
        } else {
            let rest = line_step(s.skip(n));
            (seq![c] + rest.0, n + rest.1)
        },
    }
}

/// One line-read attempt consumes no more bytes than are available, and at
/// least one when it yields any characters.
pub proof fn lemma_line_step_bounds(s: Seq<u8>)
    ensures
        0 <= line_step(s).1 <= s.len(),
        line_step(s).0.len() > 0 ==> 1 <= line_step(s).1,
    decreases s.len(),
{
    lemma_decode_len_bounds(s);
    let n = decode_len(s);
    match decoded_scalar(s) {
        None => {},
        Some(c) => if c == '\n' {
        } else if c == '\r' {
            let s2 = s.skip(n);
            lemma_decode_len_bounds(s2);
            let n2 = decode_len(s2);
            if decoded_scalar(s2) == Some('\n') {
            } else {
                lemma_line_step_bounds(s2.skip(n2));
            }
        } else {
            lemma_line_step_bounds(s.skip(n));
        },
    }
}

/// All lines produced by reading `s` line by line until a read yields no
/// characters (be it from an empty line, from exhaustion, or from a decode
/// failure).
pub open spec fn lines_spec(s: Seq<u8>) -> Seq<Seq<char>>
    decreases s.len(),
    via lines_spec_decreases
{
    let step = line_step(s);
    if step.0.len() == 0 {
        Seq::empty()
    } else {
        seq![step.0] + lines_spec(s.skip(step.1))
    }
}

#[via_fn]
proof fn lines_spec_decreases(s: Seq<u8>) {
    lemma_line_step_bounds(s);
}

/// The codepoint assembled from a recognized lead/continuation pattern is
/// bounded by the largest value its data bits can carry.
proof fn lemma_codepoint_bounds(b1: u8, b2: u8, b3: u8, b4: u8)
    ensures
        codepoint_width_1(b1) <= 0x7f,
        codepoint_width_2(b1, b2) <= 0x7ff,
        codepoint_width_3(b1, b2, b3) <= 0xffff,
        codepoint_width_4(b1, b2, b3, b4) <= 0x1fffff,
{
    assert((b1 & 0x7f) as u32 <= 0x7f) by (bit_vector);
    assert((((b1 & 0x1f) as u32) << 6 | (b2 & 0x3f) as u32) <= 0x7ff) by (bit_vector);
    assert((((b1 & 0x0f) as u32) << 12 | ((b2 & 0x3f) as u32) << 6 | (b3 & 0x3f) as u32)
        <= 0xffff) by (bit_vector);
    assert((((b1 & 0x07) as u32) << 18 | ((b2 & 0x3f) as u32) << 12 | ((b3 & 0x3f) as u32) << 6 | (
    b4 & 0x3f) as u32) <= 0x1fffff) by (bit_vector);
}

/// On a byte sequence that starts with a well-formed lead byte and its
/// continuation bytes, one decode attempt consumes exactly that encoding and
/// yields its codepoint (as a character, when the codepoint is a legal
/// scalar value).
pub proof fn lemma_decode_well_formed_prefix(s: Seq<u8>)
    requires
        valid_leading_and_continuation_bytes_first_codepoint(s),
    ensures
        decode_len(s) == length_of_first_codepoint(s),
        decoded_scalar(s) == scalar_to_char(decode_first_codepoint(s)),
{
}

/// Decoding a byte sequence that starts with a valid UTF-8 scalar encoding
/// yields exactly that scalar and consumes exactly its encoding.
pub proof fn lemma_decode_valid_first_scalar(s: Seq<u8>)
    requires
        valid_first_scalar(s),
    ensures
        decode_len(s) == length_of_first_scalar(s),
        decoded_scalar(s) == Some(decode_first_scalar(s) as char),
{
    lemma_decode_well_formed_prefix(s);
    if length_of_first_codepoint(s) == 1 {
        lemma_codepoint_bounds(s[0], s[0], s[0], s[0]);
    } else if length_of_first_codepoint(s) == 2 {
        lemma_codepoint_bounds(s[0], s[1], s[1], s[1]);
    } else if length_of_first_codepoint(s) == 3 {
        lemma_codepoint_bounds(s[0], s[1], s[2], s[2]);
    } else {
        lemma_codepoint_bounds(s[0], s[1], s[2], s[3]);
    }
    assert(is_scalar(decode_first_codepoint(s)));
}

/// The canonical UTF-8 encoding of any character, followed by any further
/// bytes, decodes back to that character, consuming exactly the encoding.
pub proof fn lemma_scalar_round_trip(c: char, rest: Seq<u8>)
    ensures
        decoded_scalar(encode_scalar(c as u32) + rest) == Some(c),
        decode_len(encode_scalar(c as u32) + rest) == encode_scalar(c as u32).len(),
{
    let enc = encode_scalar(c as u32);
    encode_utf8_first_scalar(seq![c]);
    assert(encode_utf8(seq![c]) =~= enc) by {
        assert(seq![c].drop_first() =~= Seq::<char>::empty());
        assert(enc + encode_utf8(Seq::<char>::empty()) =~= enc);
    }
    char_is_scalar(c);
    char_u32_cast(c, c as u32);
    let s = enc + rest;
    assert(valid_leading_and_continuation_bytes_first_codepoint(s));
    assert(decode_first_codepoint(s) == decode_first_codepoint(enc));
    assert(length_of_first_codepoint(s) == length_of_first_codepoint(enc));
    lemma_decode_well_formed_prefix(s);
}

/// A source holding exactly the UTF-8 encoding of one character yields that
/// character and is then exhausted, so the next decode yields nothing.
pub proof fn lemma_encoding_decodes_exactly(c: char)
    ensures
        decoded_scalar(encode_scalar(c as u32)) == Some(c),
        encode_scalar(c as u32).skip(decode_len(encode_scalar(c as u32))) == Seq::<u8>::empty(),
        decoded_scalar(Seq::<u8>::empty()) is None,
{
    let enc = encode_scalar(c as u32);
    lemma_scalar_round_trip(c, Seq::empty());
    assert(enc + Seq::<u8>::empty() =~= enc);
    assert(enc.skip(decode_len(enc)) =~= Seq::<u8>::empty());
}

/// Feeding only the lead byte of a two-, three- or four-byte sequence yields
/// nothing: a truncated sequence never produces a partial scalar.
pub proof fn lemma_truncated_lead_yields_none(b: u8)
    requires
        is_leading_byte_width_2(b) || is_leading_byte_width_3(b) || is_leading_byte_width_4(b),
    ensures
        decoded_scalar(seq![b]) is None,
        decode_len(seq![b]) == 1,
{
}

/// Reading all lines at once agrees with reading them one at a time: the
/// first manual line read gives the first element of the line sequence, and
/// the remaining line reads continue on the bytes it left over; a line read
/// that yields nothing means the line sequence is exhausted.
pub proof fn lemma_lines_iterate(s: Seq<u8>)
    ensures
        line_step(s).0.len() == 0 ==> lines_spec(s) == Seq::<Seq<char>>::empty(),
        line_step(s).0.len() > 0 ==> lines_spec(s).len() >= 1 && lines_spec(s)[0] == line_step(
            s,
        ).0 && lines_spec(s).skip(1) == lines_spec(s.skip(line_step(s).1)),
{
    if line_step(s).0.len() > 0 {
        assert((seq![line_step(s).0] + lines_spec(s.skip(line_step(s).1))).skip(1) =~= lines_spec(
            s.skip(line_step(s).1),
        ));
    }
}

/// Relies on `String::push`: appends exactly the given character.
#[verifier::external_body]
fn push_char(buf: &mut String, c: char)
    ensures
        final(buf)@ == old(buf)@.push(c),
{
    buf.push(c);
}

/// Relies on `String::is_empty`: true exactly when the string has no
/// characters.
#[verifier::external_body]
fn string_is_empty(buf: &String) -> (r: bool)
    ensures
        r == (buf@.len() == 0),
{
    buf.is_empty()
}

/// Character-based reader over a [`ByteSource`]; the data is expected to be
/// UTF-8. Decoding ends early on the first byte sequence that is not valid
/// UTF-8.
pub struct StringStream<T: ByteSource> {
    bytes: T,
}

impl<T: ByteSource> StringStream<T> {
    /// The bytes not yet consumed by the decoder.
    pub closed spec fn remaining(&self) -> Seq<u8> {
        self.bytes.remaining()
    }

    pub fn new(x: T) -> (r: Self)
        ensures
            r.remaining() == x.remaining(),
    {
        StringStream { bytes: x }
    }

    /// Pull bytes until one Unicode scalar value is assembled, or until the
    /// source is exhausted or the bytes do not form valid UTF-8 (the two are
    /// not distinguished).
    pub fn next_scalar(&mut self) -> (r: Option<char>)
        ensures
            r == decoded_scalar(old(self).remaining()),
            final(self).remaining() == old(self).remaining().skip(
                decode_len(old(self).remaining()),
            ),
    {
        let ghost orig = self.remaining();
        let first = match self.bytes.next_byte() {
            Some(b) => b,
            None => {
                proof {
                    assert(orig.skip(0) =~= orig);
                }
                return None;
            },
        };
        if is_ascii(first) {
            proof {
                assert(first & 0x7f == first) by (bit_vector)
                    requires
                        first <= 0x7f,
                ;
                assert(orig.drop_first() =~= orig.skip(1));
            }
            return char::from_u32(first as u32);
        }
        let second = match self.bytes.next_byte() {
            Some(b) => b,
            None => {
                proof {
                    assert(orig.drop_first() =~= orig.skip(1));
                }
                return None;
            },
        };
        proof {
            assert(orig.drop_first().drop_first() =~= orig.skip(2));
            assert(orig.drop_first()[0] == orig[1]);
        }
        if is_two_bytes(first, second) {
            let first_bits = lo(first, 5);
            let second_bits = lo(second, 6);
            let ch = (first_bits as u32) << 6 | second_bits as u32;
            proof {
                assert(ch == codepoint_width_2(first, second));
            }
            return char::from_u32(ch);
        }
        let third = match self.bytes.next_byte() {
            Some(b) => b,
            None => {
                return None;
            },
        };
        proof {
            assert(orig.skip(2) =~= orig.drop_first().drop_first());
            assert(orig.skip(2).drop_first() =~= orig.skip(3));
            assert(orig.skip(2)[0] == orig[2]);
        }
        if is_three_bytes(first, second, third) {
            let first_bits = lo(first, 4);
            let second_bits = lo(second, 6);
            let third_bits = lo(third, 6);
            let ch = (first_bits as u32) << 12 | (second_bits as u32) << 6 | third_bits as u32;
            proof {
                assert(ch == codepoint_width_3(first, second, third));
            }
            return char::from_u32(ch);
        }
        let fourth = match self.bytes.next_byte() {
            Some(b) => b,
            None => {
                return None;
            },
        };
        proof {
            assert(orig.skip(3) =~= orig.skip(2).drop_first());
            assert(orig.skip(3).drop_first() =~= orig.skip(4));
            assert(orig.skip(3)[0] == orig[3]);
        }
        if is_four_bytes(first, second, third, fourth) {
            let first_bits = lo(first, 3);
            let second_bits = lo(second, 6);
            let third_bits = lo(third, 6);
            let fourth_bits = lo(fourth, 6);
            let ch = (first_bits as u32) << 18 | (second_bits as u32) << 12 | (third_bits
                as u32) << 6 | (fourth_bits as u32);
            proof {
                assert(ch == codepoint_width_4(first, second, third, fourth));
            }
            return char::from_u32(ch);
        }
        None
    }

    /// Read scalar values until a line terminator or "no more output", and
    /// return the accumulated line; `None` when nothing was accumulated.
    pub fn next_line(&mut self) -> (r: Option<String>)
        ensures
            final(self).remaining() == old(self).remaining().skip(
                line_step(old(self).remaining()).1,
            ),
            match r {
                Some(l) => l@ == line_step(old(self).remaining()).0 && l@.len() > 0,
                None => line_step(old(self).remaining()).0.len() == 0,
            },
    {
        let ghost orig = self.remaining();
        let mut buf = String::new();
        proof {
            assert(orig.skip(0) =~= orig);
            assert(Seq::<char>::empty() + line_step(orig).0 =~= line_step(orig).0);
        }
        loop
            invariant_except_break
                line_step(orig).0 == buf@ + line_step(self.remaining()).0,
                line_step(orig).1 == (orig.len() - self.remaining().len()) + line_step(
                    self.remaining(),
                ).1,
                self.remaining() == orig.skip(orig.len() - self.remaining().len()),
                self.remaining().len() <= orig.len(),
            ensures
                buf@ == line_step(orig).0,
                self.remaining() == orig.skip(line_step(orig).1),
            decreases self.remaining().len(),
        {
            let ghost rem_pre = self.remaining();
            let ghost used: int = orig.len() - rem_pre.len();
            proof {
                lemma_decode_len_bounds(rem_pre);
            }
            match self.next_scalar() {
                None => {
                    proof {
                        assert(buf@ + Seq::<char>::empty() =~= buf@);
                        assert(orig.skip(used).skip(decode_len(rem_pre)) =~= orig.skip(
                            used + decode_len(rem_pre),
                        ));
                    }
                    break ;
                },
                Some(ch) => {
                    let ghost n = decode_len(rem_pre);
                    proof {
                        assert(orig.skip(used).skip(n) =~= orig.skip(used + n));
                    }
                    if ch == '\r' {
                        let ghost rem2 = self.remaining();
                        let ghost n2 = decode_len(rem2);
                        proof {
                            lemma_decode_len_bounds(rem2);
                            assert(orig.skip(used + n).skip(n2) =~= orig.skip(used + n + n2));
                        }
                        let next = self.next_scalar();
                        let lf = match next {
                            Some(c2) => c2 == '\n',
                            None => false,
                        };
                        if lf {
                            proof {
                                assert(buf@ + Seq::<char>::empty() =~= buf@);
                            }
                            break ;
                        } else {
                            push_char(&mut buf, ch);
                            proof {
                                let rest = line_step(rem_pre.skip(n).skip(n2));
                                assert(rem2.skip(n2) == self.remaining());
                                assert(buf@ + rest.0 =~= (buf@.drop_last() + seq!['\r']) + rest.0);
                                assert(buf@.drop_last() + (seq!['\r'] + rest.0) =~= (
                                buf@.drop_last() + seq!['\r']) + rest.0);
                            }
                        }
                    } else if ch == '\n' {
                        proof {
                            assert(buf@ + Seq::<char>::empty() =~= buf@);
                        }
                        break ;
                    } else {
                        push_char(&mut buf, ch);
                        proof {
                            let rest = line_step(rem_pre.skip(n));
                            assert(buf@ + rest.0 =~= (buf@.drop_last() + seq![ch]) + rest.0);
                            assert(buf@.drop_last() + (seq![ch] + rest.0) =~= (buf@.drop_last()
                                + seq![ch]) + rest.0);
                        }
                    }
                },
            }
        }
        if string_is_empty(&buf) {
            None
        } else {
            Some(buf)
        }
    }

    /// All lines of the stream, consuming it: repeatedly reads one line until
    /// a read yields nothing.
    pub fn lines(self) -> (r: Vec<String>)
        ensures
            r@.map_values(|l: String| l@) == lines_spec(self.remaining()),
    {
        let ghost orig = self.remaining();
        let mut stream = self;
        let mut out: Vec<String> = Vec::new();
        proof {
            assert(out@.map_values(|l: String| l@) + lines_spec(orig) =~= lines_spec(orig));
        }
        loop
            invariant_except_break
                lines_spec(orig) == out@.map_values(|l: String| l@) + lines_spec(
                    stream.remaining(),
                ),
            ensures
                out@.map_values(|l: String| l@) == lines_spec(orig),
            decreases stream.remaining().len(),
        {
            let ghost rem_pre = stream.remaining();
            proof {
                lemma_line_step_bounds(rem_pre);
            }
            match stream.next_line() {
                None => {
                    proof {
                        assert(out@.map_values(|l: String| l@) + Seq::<Seq<char>>::empty()
                            =~= out@.map_values(|l: String| l@));
                    }
                    break ;
                },
                Some(l) => {
                    out.push(l);
                    proof {
                        let f = |x: String| x@;
                        let rest = lines_spec(rem_pre.skip(line_step(rem_pre).1));
                        assert(out@.map_values(f) =~= out@.drop_last().map_values(f) + seq![l@]);
                        assert(out@.drop_last().map_values(f) + (seq![l@] + rest) =~= (
                        out@.drop_last().map_values(f) + seq![l@]) + rest);
                    }
                },
            }
        }
        out
    }
}

} // verus!
