//! Windows strings: 16-bit units, and the generalised UTF-8 in which
//! [`OsString`] holds them.
//!
//! A pair of surrogate units stands for one code point, and a surrogate unit
//! without a partner for itself, so every sequence of units has an encoding.
use vstd::prelude::*;
use vstd::utf8::{char_is_scalar, encode_scalar, encode_utf8, is_scalar};

use crate::os_string::OsString;

verus! {

/// Whether a unit is the first half of a surrogate pair.
pub open spec fn is_high(unit: u16) -> bool {
    0xd800 <= unit < 0xdc00
}

/// Whether a unit is the second half of a surrogate pair.
pub open spec fn is_low(unit: u16) -> bool {
    0xdc00 <= unit < 0xe000
}

/// The encoding of one code point.
pub open spec fn code_point_bytes(c: int) -> Seq<u8> {
    if c < 0x80 {
        seq![c as u8]
    } else if c < 0x800 {
        seq![(0xc0 + c / 64) as u8, (0x80 + c % 64) as u8]
    } else if c < 0x10000 {
        seq![(0xe0 + c / 4096) as u8, (0x80 + (c / 64) % 64) as u8, (0x80 + c % 64) as u8]
    } else {
        seq![
            (0xf0 + c / 262144) as u8,
            (0x80 + (c / 4096) % 64) as u8,
            (0x80 + (c / 64) % 64) as u8,
            (0x80 + c % 64) as u8,
        ]
    }
}

/// The units of one code point.
pub open spec fn code_point_units(c: int) -> Seq<u16> {
    if c < 0x10000 {
        seq![c as u16]
    } else {
        seq![(0xd800 + (c - 0x10000) / 1024) as u16, (0xdc00 + (c - 0x10000) % 1024) as u16]
    }
}

/// How many units at the front of a non-empty sequence make up one code point.
pub open spec fn units_taken(units: Seq<u16>) -> int {
    if units.len() >= 2 && is_high(units[0]) && is_low(units[1]) {
        2
    } else {
        1
    }
}

/// The code point at the front of a non-empty sequence of units.
pub open spec fn first_of_units(units: Seq<u16>) -> int {
    if units_taken(units) == 2 {
        0x10000 + (units[0] - 0xd800) * 1024 + (units[1] - 0xdc00)
    } else {
        units[0] as int
    }
}

/// The encoding of a sequence of units.
pub open spec fn wide_bytes(units: Seq<u16>) -> Seq<u8>
    decreases units.len(),
{
    if units.len() == 0 {
        seq![]
    } else {
        code_point_bytes(first_of_units(units)) + wide_bytes(units.skip(units_taken(units)))
    }
}

/// The six bits that a following byte carries; nothing where it is missing.
pub open spec fn tail_bits(bytes: Seq<u8>, at: int) -> int {
    if at < bytes.len() {
        bytes[at] as int % 64
    } else {
        0
    }
}

/// How many bytes the lead byte of a code point announces.
pub open spec fn announced(lead: u8) -> int {
    if lead < 0x80 {
        1
    } else if lead < 0xe0 {
        2
    } else if lead < 0xf0 {
        3
    } else {
        4
    }
}

/// How many bytes at the front of a non-empty encoding make up one code point.
pub open spec fn bytes_taken(bytes: Seq<u8>) -> int {
    if announced(bytes[0]) <= bytes.len() {
        announced(bytes[0])
    } else {
        bytes.len() as int
    }
}

/// The code point at the front of a non-empty encoding.
pub open spec fn first_of_bytes(bytes: Seq<u8>) -> int {
    if announced(bytes[0]) == 1 {
        bytes[0] as int
    } else if announced(bytes[0]) == 2 {
        (bytes[0] as int % 32) * 64 + tail_bits(bytes, 1)
    } else if announced(bytes[0]) == 3 {
        (bytes[0] as int % 16) * 4096 + tail_bits(bytes, 1) * 64 + tail_bits(bytes, 2)
    } else {
        (bytes[0] as int % 8) * 262144 + tail_bits(bytes, 1) * 4096 + tail_bits(bytes, 2) * 64
            + tail_bits(bytes, 3)
    }
}

/// The units that an encoding stands for.
pub open spec fn wide_units(bytes: Seq<u8>) -> Seq<u16>
    decreases bytes.len(),
{
    if bytes.len() == 0 {
        seq![]
    } else {
        code_point_units(first_of_bytes(bytes)) + wide_units(bytes.skip(bytes_taken(bytes)))
    }
}

/// Reading back the encoding of one code point, whatever follows it.
proof fn lemma_code_point_read(c: int, rest: Seq<u8>)
    requires
        0 <= c < 0x110000,
    ensures
        ({
            let bytes = code_point_bytes(c) + rest;
            &&& bytes.len() > 0
            &&& first_of_bytes(bytes) == c
            &&& bytes_taken(bytes) == code_point_bytes(c).len()
            &&& bytes.skip(bytes_taken(bytes)) == rest
        }),
{
    let bytes = code_point_bytes(c) + rest;
    assert(bytes.skip(code_point_bytes(c).len() as int) =~= rest);
    if c >= 0x10000 {
        assert(c / 64 == (c / 4096) * 64 + (c / 64) % 64);
        assert(c / 4096 == (c / 262144) * 64 + (c / 4096) % 64);
    } else if c >= 0x800 {
        assert(c / 64 == (c / 4096) * 64 + (c / 64) % 64);
    }
}

/// Taking one code point from units and writing it as units gives these units.
proof fn lemma_units_of_first(units: Seq<u16>)
    requires
        units.len() > 0,
    ensures
        0 <= first_of_units(units) < 0x110000,
        code_point_units(first_of_units(units)) == units.take(units_taken(units)),
{
    let c = first_of_units(units);
    if units_taken(units) == 2 {
        let high = (units[0] - 0xd800) as int;
        let low = (units[1] - 0xdc00) as int;
        assert((c - 0x10000) / 1024 == high && (c - 0x10000) % 1024 == low);
        assert(code_point_units(c) =~= units.take(2));
    } else {
        assert(code_point_units(c) =~= units.take(1));
    }
}

/// Encoding a sequence of units loses nothing: the units are read back from
/// the encoding, even where they are no well-formed UTF-16.
pub proof fn wide_round_trip(units: Seq<u16>)
    ensures
        wide_units(wide_bytes(units)) == units,
    decreases units.len(),
{
    if units.len() == 0 {
        assert(wide_bytes(units) =~= seq![]);
        assert(units =~= seq![]);
    } else {
        let taken = units_taken(units);
        let rest = units.skip(taken);
        lemma_units_of_first(units);
        lemma_code_point_read(first_of_units(units), wide_bytes(rest));
        wide_round_trip(rest);
        assert(units.take(taken) + rest =~= units);
    }
}

/// The units of a text: those of its characters, one after the other.
pub open spec fn text_units(text: Seq<char>) -> Seq<u16>
    decreases text.len(),
{
    if text.len() == 0 {
        seq![]
    } else {
        code_point_units(text[0] as int) + text_units(text.drop_first())
    }
}

/// For a Unicode scalar value the encoding is that of UTF-8.
proof fn lemma_scalar_bytes(c: u32)
    requires
        is_scalar(c),
    ensures
        encode_scalar(c) == code_point_bytes(c as int),
{
    if c < 0x80 {
        assert((c & 0x7f) as u8 == c as u8) by (bit_vector)
            requires
                c < 0x80,
        ;
    } else if c < 0x800 {
        assert(0xc0u8 | ((c >> 6) & 0x1f) as u8 == (0xc0 + c / 64) as u8 && 0x80u8 | (c & 0x3f)
            as u8 == (0x80 + c % 64) as u8) by (bit_vector)
            requires
                c < 0x800,
        ;
    } else if c < 0x10000 {
        assert(0xe0u8 | ((c >> 12) & 0x0f) as u8 == (0xe0 + c / 4096) as u8 && 0x80u8 | ((c >> 6)
            & 0x3f) as u8 == (0x80 + (c / 64) % 64) as u8 && 0x80u8 | (c & 0x3f) as u8 == (0x80 + c
            % 64) as u8) by (bit_vector)
            requires
                c < 0x10000,
        ;
    } else {
        assert(0xf0u8 | ((c >> 18) & 0x07) as u8 == (0xf0 + c / 262144) as u8 && 0x80u8 | ((c
            >> 12) & 0x3f) as u8 == (0x80 + (c / 4096) % 64) as u8 && 0x80u8 | ((c >> 6) & 0x3f)
            as u8 == (0x80 + (c / 64) % 64) as u8 && 0x80u8 | (c & 0x3f) as u8 == (0x80 + c % 64)
            as u8) by (bit_vector)
            requires
                c < 0x110000,
        ;
    }
    assert(encode_scalar(c) =~= code_point_bytes(c as int));
}

/// A character is a code point.
proof fn lemma_char_range(c: char)
    ensures
        0 <= c as int,
        (c as int) < 0x110000,
        (c as u32) as int == c as int,
{
}

/// The units of a string that holds a text are the UTF-16 of the text.
pub proof fn wide_units_of_text(text: Seq<char>)
    ensures
        wide_units(encode_utf8(text)) == text_units(text),
    decreases text.len(),
{
    if text.len() > 0 {
        let rest = text.drop_first();
        char_is_scalar(text[0]);
        lemma_char_range(text[0]);
        lemma_scalar_bytes(text[0] as u32);
        lemma_code_point_read(text[0] as int, encode_utf8(rest));
        wide_units_of_text(rest);
    }
}

/// The unit that stands for a code point below 0x10000 is its own number.  Any
/// other is told by a pair: the high unit counts in steps of 1024, the low one
/// counts on from there.
pub proof fn units_tell_the_code_point(c: int)
    requires
        0 <= c < 0x110000,
    ensures
        ({
            let units = code_point_units(c);
            &&& c < 0x10000 ==> units.len() == 1 && units[0] == c
            &&& c >= 0x10000 ==> units.len() == 2 && 0xd800 <= units[0] < 0xdc00 && 0xdc00
                <= units[1] < 0xe000 && 0x10000 + 1024 * (units[0] - 0xd800) + (units[1] - 0xdc00)
                == c
        }),
{
}

/// The units of a text are held as the UTF-8 of the text.
pub proof fn wide_bytes_of_text(text: Seq<char>)
    ensures
        wide_bytes(text_units(text)) == encode_utf8(text),
    decreases text.len(),
{
    if text.len() > 0 {
        let rest = text.drop_first();
        let units = text_units(text);
        let c = text[0] as int;
        char_is_scalar(text[0]);
        lemma_char_range(text[0]);
        lemma_scalar_bytes(text[0] as u32);
        wide_bytes_of_text(rest);
        assert(units[0] == code_point_units(c)[0]);
        if c < 0x10000 {
            assert(units.skip(1) =~= text_units(rest));
        } else {
            assert(units[1] == code_point_units(c)[1]);
            assert(units.skip(2) =~= text_units(rest));
        }
    }
}

/// The first byte of a code point tells how many bytes it takes: one below
/// 0x80, two below 0xe0, three below 0xf0, and four from there on; and it holds
/// the bits that the others, with six bits each, leave over.
pub proof fn lead_byte_tells_the_length(bytes: Seq<u8>)
    requires
        bytes.len() >= 4,
    ensures
        bytes[0] < 0x80 ==> bytes_taken(bytes) == 1 && first_of_bytes(bytes) == bytes[0],
        0x80 <= bytes[0] < 0xe0 ==> bytes_taken(bytes) == 2 && first_of_bytes(bytes) == bytes[0]
            as int % 32 * 64 + bytes[1] as int % 64,
        0xe0 <= bytes[0] < 0xf0 ==> bytes_taken(bytes) == 3 && first_of_bytes(bytes) == (bytes[0]
            as int % 16 * 64 + bytes[1] as int % 64) * 64 + bytes[2] as int % 64,
        0xf0 <= bytes[0] ==> bytes_taken(bytes) == 4 && first_of_bytes(bytes) == ((bytes[0] as int
            % 8 * 64 + bytes[1] as int % 64) * 64 + bytes[2] as int % 64) * 64 + bytes[3] as int
            % 64,
{
}

/// Where a string ends inside a code point, the bytes that are missing count as
/// zeros, and what is there is taken.
pub proof fn missing_bytes_count_as_zeros(bytes: Seq<u8>)
    requires
        bytes.len() > 0,
    ensures
        first_of_bytes(bytes) == first_of_bytes(bytes + seq![0u8, 0, 0]),
        0 < bytes_taken(bytes) <= bytes.len(),
        bytes_taken(bytes) < bytes.len() ==> bytes_taken(bytes) == bytes_taken(
            bytes + seq![0u8, 0, 0],
        ),
{
    let more = bytes + seq![0u8, 0, 0];
    assert(more[0] == bytes[0]);
    assert(forall|at: int|
        1 <= at <= 3 ==> #[trigger] tail_bits(more, at) == tail_bits(bytes, at));
}

/// Appends the encoding of one code point.
fn push_code_point(out: &mut Vec<u8>, c: u32)
    requires
        c < 0x110000,
    ensures
        final(out)@ == old(out)@ + code_point_bytes(c as int),
{
    if c < 0x80 {
        out.push(c as u8);
    } else if c < 0x800 {
        out.push((0xc0 + c / 64) as u8);
        out.push((0x80 + c % 64) as u8);
    } else if c < 0x10000 {
        out.push((0xe0 + c / 4096) as u8);
        out.push((0x80 + (c / 64) % 64) as u8);
        out.push((0x80 + c % 64) as u8);
    } else {
        out.push((0xf0 + c / 262144) as u8);
        out.push((0x80 + (c / 4096) % 64) as u8);
        out.push((0x80 + (c / 64) % 64) as u8);
        out.push((0x80 + c % 64) as u8);
    }
}

/// The six bits of the byte at `at`, nothing where there is none.
fn tail_bits_at(bytes: &[u8], at: usize) -> (r: u32)
    ensures
        r == tail_bits(bytes@, at as int),
        r < 64,
{
    if at < bytes.len() {
        (bytes[at] % 64) as u32
    } else {
        0
    }
}

impl OsString {
    /// The string of a sequence of 16-bit units.
    pub fn from_wide(units: &[u16]) -> (r: OsString)
        ensures
            r@ == wide_bytes(units@),
            wide_units(r@) == units@,
    {
        let mut out: Vec<u8> = Vec::new();
        let mut i: usize = 0;
        assert(units@.skip(0) =~= units@);
        while i < units.len()
            invariant
                i <= units@.len(),
                wide_bytes(units@) == out@ + wide_bytes(units@.skip(i as int)),
            decreases units@.len() - i,
        {
            let ghost left = units@.skip(i as int);
            let ghost before = out@;
            let unit = units[i];
            if 0xd800 <= unit && unit < 0xdc00 && i + 1 < units.len() && 0xdc00 <= units[i + 1]
                && units[i + 1] < 0xe000 {
                let c: u32 = 0x10000 + (unit as u32 - 0xd800) * 1024 + (units[i + 1] as u32
                    - 0xdc00);
                push_code_point(&mut out, c);
                assert(left.skip(2) =~= units@.skip(i + 2));
                i += 2;
            } else {
                push_code_point(&mut out, unit as u32);
                assert(left.skip(1) =~= units@.skip(i + 1));
                i += 1;
            }
            assert(out@ + wide_bytes(units@.skip(i as int)) =~= before + wide_bytes(left));
        }
        assert(units@.skip(i as int) =~= seq![]);
        assert(out@ + wide_bytes(units@.skip(i as int)) =~= out@);
        proof {
            wide_round_trip(units@);
        }
        OsString::from_bytes(out)
    }

    /// The 16-bit units of the string.
    pub fn encode_wide(&self) -> (r: Vec<u16>)
        ensures
            r@ == wide_units(self@),
    {
        let bytes = self.as_bytes();
        let mut out: Vec<u16> = Vec::new();
        let mut i: usize = 0;
        assert(bytes@.skip(0) =~= bytes@);
        while i < bytes.len()
            invariant
                i <= bytes@.len(),
                wide_units(bytes@) == out@ + wide_units(bytes@.skip(i as int)),
            decreases bytes@.len() - i,
        {
            let ghost left = bytes@.skip(i as int);
            let ghost before = out@;
            let lead = bytes[i];
            let size: usize;
            let c: u32;
            if lead < 0x80 {
                size = 1;
                c = lead as u32;
            } else {
                let left_over = bytes.len() - i;
                let one = if left_over > 1 { tail_bits_at(bytes, i + 1) } else { 0 };
                let two = if left_over > 2 { tail_bits_at(bytes, i + 2) } else { 0 };
                let three = if left_over > 3 { tail_bits_at(bytes, i + 3) } else { 0 };
                assert(one == tail_bits(left, 1));
                assert(two == tail_bits(left, 2));
                assert(three == tail_bits(left, 3));
                if lead < 0xe0 {
                    size = 2;
                    c = (lead as u32 % 32) * 64 + one;
                } else if lead < 0xf0 {
                    size = 3;
                    c = (lead as u32 % 16) * 4096 + one * 64 + two;
                } else {
                    size = 4;
                    c = (lead as u32 % 8) * 262144 + one * 4096 + two * 64 + three;
                }
            }
            assert(c == first_of_bytes(left));
            if c < 0x10000 {
                out.push(c as u16);
            } else {
                out.push((0xd800 + (c - 0x10000) / 1024) as u16);
                out.push((0xdc00 + (c - 0x10000) % 1024) as u16);
            }
            assert(out@ =~= before + code_point_units(c as int));
            let taken: usize = if size <= bytes.len() - i { size } else { bytes.len() - i };
            assert(left.skip(taken as int) =~= bytes@.skip(i + taken));
            i += taken;
            assert(out@ + wide_units(bytes@.skip(i as int)) =~= before + wide_units(left));
        }
        assert(bytes@.skip(i as int) =~= seq![]);
        assert(out@ + wide_units(bytes@.skip(i as int)) =~= out@);
        out
    }
}

} // verus!
