//! The label of a bar: its name and its value, in at most 15 bytes.

use crate::text::{
    decimal, decimal_digits, label_chars, label_new, label_push, label_push_str, lemma_ascii_len,
    lemma_decimal_is_ascii, lemma_decimal_of_sample, lemma_utf8_len_adds, utf8_len, written,
};
use arrayvec::ArrayString;
use vstd::prelude::*;
use vstd::utf8::is_ascii_chars;

verus! {

/// The blanks that bring `digits` digits to `width` characters.
pub open spec fn padding(digits: nat, width: nat) -> nat {
    if digits < width {
        (width - digits) as nat
    } else {
        0
    }
}

/// The pieces of a number that is set to the right: `blanks` blanks, each a
/// piece of its own, and then the digits as one piece.
pub open spec fn number_pieces(blanks: nat, digits: Seq<char>) -> Seq<Seq<char>> {
    Seq::new(blanks, |i: int| seq![' ']).push(digits)
}

/// The pieces of a bar's label: the name, a colon and a blank, and the value
/// set to the right in five characters.
pub open spec fn label_pieces(name: Seq<char>, value: u16) -> Seq<Seq<char>> {
    seq![name, ": "@] + number_pieces(
        padding(decimal(value as nat).len(), 5),
        decimal(value as nat),
    )
}

/// The label of a bar: as many of its pieces as fit in 15 bytes.
pub open spec fn label(name: Seq<char>, value: u16) -> Seq<char> {
    written(Seq::empty(), label_pieces(name, value), 15)
}

/// A number set to the right in `width` characters: blanks in front of its
/// digits where they are fewer.
pub open spec fn set_right(digits: Seq<char>, width: nat) -> Seq<char> {
    Seq::new(padding(digits.len(), width), |i: int| ' ') + digits
}

/// The label of a bar: its name, a colon and a blank, and its value set to
/// the right in five characters, as far as the pieces fit.
pub fn bar_label(name: &str, value: u16) -> (text: ArrayString<15>)
    ensures
        label_chars(text) == label(name@, value),
{
    let mut text = label_new();
    let (buffer, count) = decimal_digits(value as u32);
    let ghost digits = decimal(value as nat);
    let ghost blanks = padding(digits.len(), 5);
    let ghost rest = number_pieces(blanks, digits);
    let ghost pieces = label_pieces(name@, value);
    proof {
        reveal_strlit(": ");
        lemma_ascii_len(Seq::<char>::empty());
        lemma_ascii_len(": "@);
        lemma_ascii_len(seq![' ']);
        lemma_decimal_is_ascii(value as nat);
        lemma_ascii_len(digits);
        assert(pieces.drop_first() =~= seq![": "@] + rest);
        assert((seq![": "@] + rest).drop_first() =~= rest);
        assert(Seq::<char>::empty() + name@ =~= name@);
        assert(pieces[0] == name@);
        assert((seq![": "@] + rest)[0] == ": "@);
    }
    if !label_push_str(&mut text, name) {
        assert(label(name@, value) == Seq::<char>::empty());
        return text;
    }
    assert(label(name@, value) == written(name@, seq![": "@] + rest, 15));
    let mut used: usize = name.len();
    proof {
        lemma_utf8_len_adds(name@, ": "@);
    }
    if !label_push_str(&mut text, ": ") {
        assert(written(name@, seq![": "@] + rest, 15) == name@);
        return text;
    }
    assert(written(name@, seq![": "@] + rest, 15) == written(name@ + ": "@, rest, 15));
    used = used + 2;
    let mut wanted: usize = if count < 5 {
        5 - count
    } else {
        0
    };
    while wanted > 0
        invariant
            used == utf8_len(label_chars(text)),
            used <= 15,
            wanted <= 5,
            utf8_len(seq![' ']) == 1,
            label(name@, value) == written(
                label_chars(text),
                number_pieces(wanted as nat, digits),
                15,
            ),
        decreases wanted,
    {
        let ghost before = label_chars(text);
        let ghost ahead = number_pieces(wanted as nat, digits);
        proof {
            lemma_utf8_len_adds(before, seq![' ']);
            assert(ahead.drop_first() =~= number_pieces((wanted - 1) as nat, digits));
            assert(ahead[0] == seq![' ']);
            assert(before.push(' ') =~= before + seq![' ']);
        }
        if !label_push(&mut text, ' ') {
            assert(written(before, ahead, 15) == before);
            return text;
        }
        assert(written(before, ahead, 15) == written(
            before + seq![' '],
            number_pieces((wanted - 1) as nat, digits),
            15,
        ));
        used = used + 1;
        wanted = wanted - 1;
    }
    let ghost before = label_chars(text);
    proof {
        lemma_utf8_len_adds(before, digits);
        assert(number_pieces(0, digits) =~= seq![digits]);
        assert(seq![digits].drop_first() =~= Seq::<Seq<char>>::empty());
        assert(seq![digits][0] == digits);
    }
    if used + count > 15 {
        assert(written(before, seq![digits], 15) == before);
        return text;
    }
    assert(written(before, seq![digits], 15) == written(
        before + digits,
        Seq::<Seq<char>>::empty(),
        15,
    ));
    let mut index: usize = 10 - count;
    while index < 10
        invariant
            10 - count <= index <= 10,
            1 <= count <= 10,
            digits == buffer@.subrange(10 - count, 10),
            is_ascii_chars(digits),
            utf8_len(before) + count <= 15,
            label_chars(text) == before + digits.take(index - (10 - count)),
        decreases 10 - index,
    {
        let ghost earlier = label_chars(text);
        let ghost done = digits.take(index - (10 - count));
        proof {
            assert(is_ascii_chars(done));
            lemma_ascii_len(done);
            lemma_utf8_len_adds(before, done);
            assert(buffer@[index as int] == digits[index - (10 - count)]);
            lemma_ascii_len(seq![buffer@[index as int]]);
        }
        label_push(&mut text, buffer[index]);
        assert(earlier.push(buffer@[index as int]) =~= before + digits.take(
            index + 1 - (10 - count),
        ));
        index = index + 1;
    }
    assert(digits.take(count as int) =~= digits);
    text
}

/// Blanks and digits that all fit are all written.
proof fn lemma_number_is_written(text: Seq<char>, blanks: nat, digits: Seq<char>, capacity: nat)
    requires
        is_ascii_chars(digits),
        utf8_len(text) + blanks + digits.len() <= capacity,
    ensures
        written(text, number_pieces(blanks, digits), capacity) == text + Seq::new(
            blanks,
            |i: int| ' ',
        ) + digits,
    decreases blanks,
{
    let pieces = number_pieces(blanks, digits);
    lemma_ascii_len(digits);
    lemma_ascii_len(seq![' ']);
    if blanks == 0 {
        lemma_utf8_len_adds(text, digits);
        assert(pieces =~= seq![digits]);
        assert(pieces.drop_first() =~= Seq::<Seq<char>>::empty());
        assert(written(text, pieces, capacity) == written(text + digits, pieces.drop_first(), capacity));
        assert(text + Seq::new(blanks, |i: int| ' ') + digits =~= text + digits);
    } else {
        let fewer = (blanks - 1) as nat;
        lemma_utf8_len_adds(text, seq![' ']);
        assert(pieces[0] == seq![' ']);
        assert(pieces.drop_first() =~= number_pieces(fewer, digits));
        lemma_number_is_written(text + seq![' '], fewer, digits, capacity);
        assert(written(text, pieces, capacity) == written(
            text + seq![' '],
            number_pieces(fewer, digits),
            capacity,
        ));
        assert(text + seq![' '] + Seq::new(fewer, |i: int| ' ') + digits =~= text + Seq::new(
            blanks,
            |i: int| ' ',
        ) + digits);
    }
}

/// The label of a name of at most eight bytes is whole: the name, a colon
/// and a blank, and the value set to the right in five characters.
pub proof fn law_label_of_short_name(name: Seq<char>, value: u16)
    requires
        utf8_len(name) <= 8,
    ensures
        label(name, value) == name + ": "@ + set_right(decimal(value as nat), 5),
{
    let digits = decimal(value as nat);
    let blanks = padding(digits.len(), 5);
    let rest = number_pieces(blanks, digits);
    let pieces = label_pieces(name, value);
    reveal_strlit(": ");
    lemma_ascii_len(Seq::<char>::empty());
    lemma_ascii_len(": "@);
    lemma_decimal_is_ascii(value as nat);
    lemma_decimal_of_sample(value);
    lemma_utf8_len_adds(name, ": "@);
    assert(pieces[0] == name);
    assert(pieces.drop_first() =~= seq![": "@] + rest);
    assert((seq![": "@] + rest)[0] == ": "@);
    assert((seq![": "@] + rest).drop_first() =~= rest);
    assert(Seq::<char>::empty() + name =~= name);
    assert(label(name, value) == written(name, seq![": "@] + rest, 15));
    assert(written(name, seq![": "@] + rest, 15) == written(name + ": "@, rest, 15));
    lemma_number_is_written(name + ": "@, blanks, digits, 15);
    assert(name + ": "@ + Seq::new(blanks, |i: int| ' ') + digits =~= name + ": "@ + set_right(
        digits,
        5,
    ));
}

} // verus!
