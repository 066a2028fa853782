//! The readout: lines of a label and a value, in at most 50 bytes.

use crate::text::{
    decimal, decimal_digits, lemma_ascii_len, lemma_decimal_is_ascii, lemma_decimal_of_word,
    lemma_utf8_len_adds, readout_chars, readout_new, readout_push, readout_push_str, utf8_len,
    written,
};
use arrayvec::ArrayString;
use vstd::prelude::*;
use vstd::utf8::is_ascii_chars;

verus! {

/// The pieces of a line: what it starts with, its value in decimal, and a
/// line feed.
pub open spec fn line_pieces(prefix: Seq<char>, value: u32) -> Seq<Seq<char>> {
    seq![prefix, decimal(value as nat), seq!['\n']]
}

/// The text of the readout: lines of a label and a value, in at most 50
/// bytes.
pub struct Readout {
    text: ArrayString<50>,
    used: usize,
}

impl View for Readout {
    type V = Seq<char>;

    /// The characters of the text.
    closed spec fn view(&self) -> Seq<char> {
        readout_chars(self.text)
    }
}

impl Readout {
    /// The count of used bytes agrees with the text.
    pub closed spec fn wf(&self) -> bool {
        &&& self.used == utf8_len(self@)
        &&& self.used <= 50
    }

    /// An empty readout.
    pub fn new() -> (readout: Self)
        ensures
            readout.wf(),
            readout@ == Seq::<char>::empty(),
    {
        proof {
            lemma_ascii_len(Seq::<char>::empty());
        }
        Readout { text: readout_new(), used: 0 }
    }

    /// Writes a line: what it starts with, the value in decimal and a line
    /// feed, as far as the pieces fit.
    pub fn line(&mut self, prefix: &str, value: u32)
        requires
            old(self).wf(),
        ensures
            final(self).wf(),
            final(self)@ == written(old(self)@, line_pieces(prefix@, value), 50),
    {
        let (buffer, count) = decimal_digits(value);
        let ghost start = self@;
        let ghost digits = decimal(value as nat);
        let ghost pieces = line_pieces(prefix@, value);
        let ghost feed = seq![seq!['\n']];
        proof {
            lemma_ascii_len(seq!['\n']);
            lemma_decimal_is_ascii(value as nat);
            lemma_ascii_len(digits);
            lemma_utf8_len_adds(start, prefix@);
            lemma_utf8_len_adds(start + prefix@, digits);
            assert(pieces[0] == prefix@);
            assert(pieces.drop_first() =~= seq![digits] + feed);
            assert((seq![digits] + feed)[0] == digits);
            assert((seq![digits] + feed).drop_first() =~= feed);
            assert(feed[0] == seq!['\n']);
            assert(feed.drop_first() =~= Seq::<Seq<char>>::empty());
        }
        if !readout_push_str(&mut self.text, prefix) {
            assert(written(start, pieces, 50) == start);
            return;
        }
        assert(written(start, pieces, 50) == written(start + prefix@, seq![digits] + feed, 50));
        self.used = self.used + prefix.len();
        if self.used + count > 50 {
            assert(written(start + prefix@, seq![digits] + feed, 50) == start + prefix@);
            return;
        }
        assert(written(start + prefix@, seq![digits] + feed, 50) == written(
            start + prefix@ + digits,
            feed,
            50,
        ));
        let ghost before = self@;
        let mut index: usize = 10 - count;
        while index < 10
            invariant
                10 - count <= index <= 10,
                1 <= count <= 10,
                digits == buffer@.subrange(10 - count, 10),
                is_ascii_chars(digits),
                utf8_len(before) + count <= 50,
                self.used == utf8_len(before),
                self@ == before + digits.take(index - (10 - count)),
            decreases 10 - index,
        {
            let ghost earlier = self@;
            let ghost done = digits.take(index - (10 - count));
            proof {
                assert(is_ascii_chars(done));
                lemma_ascii_len(done);
                lemma_utf8_len_adds(before, done);
                assert(buffer@[index as int] == digits[index - (10 - count)]);
                lemma_ascii_len(seq![buffer@[index as int]]);
            }
            readout_push(&mut self.text, buffer[index]);
            assert(earlier.push(buffer@[index as int]) =~= before + digits.take(
                index + 1 - (10 - count),
            ));
            index = index + 1;
        }
        assert(digits.take(count as int) =~= digits);
        self.used = self.used + count;
        proof {
            lemma_utf8_len_adds(start + prefix@ + digits, seq!['\n']);
            assert((start + prefix@ + digits).push('\n') =~= start + prefix@ + digits + seq!['\n']);
        }
        if !readout_push(&mut self.text, '\n') {
            assert(written(start + prefix@ + digits, feed, 50) == start + prefix@ + digits);
            return;
        }
        assert(written(start + prefix@ + digits, feed, 50) == written(
            start + prefix@ + digits + seq!['\n'],
            Seq::<Seq<char>>::empty(),
            50,
        ));
        self.used = self.used + 1;
    }

    /// The text as it stands.
    pub fn text(&self) -> (text: &ArrayString<50>)
        ensures
            readout_chars(*text) == self@,
    {
        &self.text
    }
}

/// A line that fits is written whole. Its value takes at most ten digits, so
/// a line whose start leaves eleven bytes free always fits.
pub proof fn law_line_that_fits(text: Seq<char>, prefix: Seq<char>, value: u32)
    requires
        utf8_len(text) + utf8_len(prefix) + decimal(value as nat).len() + 1 <= 50,
    ensures
        written(text, line_pieces(prefix, value), 50) == text + prefix + decimal(value as nat)
            + seq!['\n'],
        decimal(value as nat).len() <= 10,
{
    let digits = decimal(value as nat);
    let pieces = line_pieces(prefix, value);
    let feed = seq![seq!['\n']];
    lemma_decimal_of_word(value);
    lemma_ascii_len(seq!['\n']);
    lemma_decimal_is_ascii(value as nat);
    lemma_ascii_len(digits);
    lemma_utf8_len_adds(text, prefix);
    lemma_utf8_len_adds(text + prefix, digits);
    assert(pieces[0] == prefix);
    assert(pieces.drop_first() =~= seq![digits] + feed);
    assert((seq![digits] + feed)[0] == digits);
    assert((seq![digits] + feed).drop_first() =~= feed);
    assert(feed[0] == seq!['\n']);
    assert(feed.drop_first() =~= Seq::<Seq<char>>::empty());
    assert(written(text, pieces, 50) == written(text + prefix, seq![digits] + feed, 50));
    assert(written(text + prefix, seq![digits] + feed, 50) == written(
        text + prefix + digits,
        feed,
        50,
    ));
    assert(written(text + prefix + digits, feed, 50) == written(
        text + prefix + digits + seq!['\n'],
        Seq::<Seq<char>>::empty(),
        50,
    ));
}

} // verus!
