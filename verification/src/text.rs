//! Fixed-capacity text: what it holds, how pieces are written to it, and
//! numbers in decimal.
//!
//! A text is put together from pieces. A piece goes into the string whole or
//! not at all, and the first piece that does not fit ends the writing.

use arrayvec::ArrayString;
use vstd::prelude::*;
use vstd::utf8::{encode_utf8, is_ascii_chars, is_ascii_chars_encode_utf8};

verus! {

/// `arrayvec::ArrayString`, a string of at most `CAP` bytes that lives where
/// it is declared.
#[verifier::external_type_specification]
#[verifier::external_body]
pub struct ExArrayString<const CAP: usize>(ArrayString<CAP>);

/// The characters that a readout text holds.
pub uninterp spec fn readout_chars(text: ArrayString<50>) -> Seq<char>;

/// The characters that a label text holds.
pub uninterp spec fn label_chars(text: ArrayString<15>) -> Seq<char>;

/// The number of bytes that the characters take in a string.
pub open spec fn utf8_len(chars: Seq<char>) -> nat {
    encode_utf8(chars).len()
}

/// The character of a decimal digit.
pub open spec fn digit(value: int) -> char {
    (value + 48) as char
}

/// A number in decimal, without leading zeros.
pub open spec fn decimal(value: nat) -> Seq<char>
    decreases value,
{
    if value < 10 {
        seq![digit(value as int)]
    } else {
        decimal(value / 10).push(digit((value % 10) as int))
    }
}

/// The text after the pieces have been written to it in order: every piece
/// that fits in what is left of `capacity` bytes is appended, and the first
/// one that does not fit ends the writing.
pub open spec fn written(text: Seq<char>, pieces: Seq<Seq<char>>, capacity: nat) -> Seq<char>
    decreases pieces.len(),
{
    if pieces.len() == 0 {
        text
    } else if utf8_len(text) + utf8_len(pieces[0]) <= capacity {
        written(text + pieces[0], pieces.drop_first(), capacity)
    } else {
        text
    }
}

/// The largest number that can be left once `count` digits have been taken
/// off a 32-bit number.
spec fn left_after(count: int) -> int {
    if count <= 0 {
        0xFFFF_FFFF
    } else if count == 1 {
        429_496_729
    } else if count == 2 {
        42_949_672
    } else if count == 3 {
        4_294_967
    } else if count == 4 {
        429_496
    } else if count == 5 {
        42_949
    } else if count == 6 {
        4_294
    } else if count == 7 {
        429
    } else if count == 8 {
        42
    } else if count == 9 {
        4
    } else {
        0
    }
}

/// `arrayvec::ArrayString::new` at 50 bytes: the text that it returns is
/// empty.
#[verifier::external_body]
pub(crate) fn readout_new() -> (text: ArrayString<50>)
    ensures
        readout_chars(text) == Seq::<char>::empty(),
{
    ArrayString::new()
}

/// `arrayvec::ArrayString::try_push_str` at 50 bytes: where the bytes of the
/// piece fit in what is left, the piece is appended; where they do not, the
/// text stays as it was. The result says which.
#[verifier::external_body]
pub(crate) fn readout_push_str(text: &mut ArrayString<50>, piece: &str) -> (pushed: bool)
    ensures
        pushed == (utf8_len(readout_chars(*old(text))) + utf8_len(piece@) <= 50),
        readout_chars(*final(text)) == if pushed {
            readout_chars(*old(text)) + piece@
        } else {
            readout_chars(*old(text))
        },
{
    text.try_push_str(piece).is_ok()
}

/// `arrayvec::ArrayString::try_push` at 50 bytes: where the bytes of the
/// character fit in what is left, the character is appended; where they do
/// not, the text stays as it was. The result says which.
#[verifier::external_body]
pub(crate) fn readout_push(text: &mut ArrayString<50>, character: char) -> (pushed: bool)
    ensures
        pushed == (utf8_len(readout_chars(*old(text))) + utf8_len(seq![character]) <= 50),
        readout_chars(*final(text)) == if pushed {
            readout_chars(*old(text)).push(character)
        } else {
            readout_chars(*old(text))
        },
{
    text.try_push(character).is_ok()
}

/// `arrayvec::ArrayString::new` at 15 bytes: the text that it returns is
/// empty.
#[verifier::external_body]
pub(crate) fn label_new() -> (text: ArrayString<15>)
    ensures
        label_chars(text) == Seq::<char>::empty(),
{
    ArrayString::new()
}

/// `arrayvec::ArrayString::try_push_str` at 15 bytes: where the bytes of the
/// piece fit in what is left, the piece is appended; where they do not, the
/// text stays as it was. The result says which.
#[verifier::external_body]
pub(crate) fn label_push_str(text: &mut ArrayString<15>, piece: &str) -> (pushed: bool)
    ensures
        pushed == (utf8_len(label_chars(*old(text))) + utf8_len(piece@) <= 15),
        label_chars(*final(text)) == if pushed {
            label_chars(*old(text)) + piece@
        } else {
            label_chars(*old(text))
        },
{
    text.try_push_str(piece).is_ok()
}

/// `arrayvec::ArrayString::try_push` at 15 bytes: where the bytes of the
/// character fit in what is left, the character is appended; where they do
/// not, the text stays as it was. The result says which.
#[verifier::external_body]
pub(crate) fn label_push(text: &mut ArrayString<15>, character: char) -> (pushed: bool)
    ensures
        pushed == (utf8_len(label_chars(*old(text))) + utf8_len(seq![character]) <= 15),
        label_chars(*final(text)) == if pushed {
            label_chars(*old(text)).push(character)
        } else {
            label_chars(*old(text))
        },
{
    text.try_push(character).is_ok()
}

/// The decimal digits of a number, at the end of a buffer of ten characters,
/// and how many they are.
pub fn decimal_digits(value: u32) -> (digits: ([char; 10], usize))
    ensures
        1 <= digits.1 <= 10,
        digits.0@.subrange(10 - digits.1, 10) == decimal(value as nat),
{
    let mut buffer: [char; 10] = ['0'; 10];
    let mut rest: u32 = value / 10;
    let mut count: usize = 1;
    buffer[9] = ((value % 10) as u8 + 48) as char;
    assert(buffer@.subrange(9, 10) =~= seq![digit((value % 10) as int)]);
    while rest > 0
        invariant
            1 <= count <= 10,
            rest <= left_after(count as int),
            decimal(value as nat) == if rest > 0 {
                decimal(rest as nat) + buffer@.subrange(10 - count, 10)
            } else {
                buffer@.subrange(10 - count, 10)
            },
        decreases rest,
    {
        let ghost tail = buffer@.subrange(10 - count, 10);
        buffer[9 - count] = ((rest % 10) as u8 + 48) as char;
        assert(buffer@.subrange(10 - count - 1, 10) =~= seq![digit((rest % 10) as int)] + tail);
        assert(decimal(rest as nat) + tail =~= if rest >= 10 {
            decimal((rest / 10) as nat) + (seq![digit((rest % 10) as int)] + tail)
        } else {
            seq![digit((rest % 10) as int)] + tail
        });
        rest = rest / 10;
        count = count + 1;
    }
    (buffer, count)
}

/// The bytes of two texts add up when the texts are joined.
pub proof fn lemma_utf8_len_adds(first: Seq<char>, second: Seq<char>)
    ensures
        utf8_len(first + second) == utf8_len(first) + utf8_len(second),
    decreases first.len(),
{
    if first.len() == 0 {
        assert(first + second =~= second);
    } else {
        assert((first + second).drop_first() =~= first.drop_first() + second);
        lemma_utf8_len_adds(first.drop_first(), second);
    }
}

/// A text of one-byte characters takes as many bytes as it has characters.
pub proof fn lemma_ascii_len(chars: Seq<char>)
    requires
        is_ascii_chars(chars),
    ensures
        utf8_len(chars) == chars.len(),
{
    is_ascii_chars_encode_utf8(chars);
}

/// A number in decimal is made of the digits `0` to `9`.
pub proof fn lemma_decimal_is_ascii(value: nat)
    ensures
        is_ascii_chars(decimal(value)),
        forall|i: int|
            0 <= i < decimal(value).len() ==> '0' <= #[trigger] decimal(value)[i] <= '9',
    decreases value,
{
    if value >= 10 {
        lemma_decimal_is_ascii(value / 10);
    }
}

/// A 32-bit number has at most ten digits.
pub proof fn lemma_decimal_of_word(value: u32)
    ensures
        1 <= decimal(value as nat).len() <= 10,
{
    reveal_with_fuel(decimal, 11);
}

/// A 16-bit number has at most five digits.
pub proof fn lemma_decimal_of_sample(value: u16)
    ensures
        1 <= decimal(value as nat).len() <= 5,
{
    reveal_with_fuel(decimal, 6);
}

} // verus!
