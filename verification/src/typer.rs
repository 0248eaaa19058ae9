//! What the typer sends for a transcribed sentence: the UTF-16 code units of
//! the text (each becomes a Unicode key press), with a separating space
//! between two alphanumeric runs.

use vstd::prelude::*;
use crate::text::chars_of;

verus! {

/// Whether `char::is_alphanumeric` holds of `c` (Unicode `Alphabetic` or
/// `Numeric`).
pub uninterp spec fn unicode_alphanumeric(c: char) -> bool;

/// ASCII letters and digits.
pub open spec fn ascii_alphanumeric(c: char) -> bool {
    ('a' <= c && c <= 'z') || ('A' <= c && c <= 'Z') || ('0' <= c && c <= '9')
}

/// `char::is_alphanumeric`. Named by `unicode_alphanumeric`; for ASCII
/// characters std's documentation makes it exactly the letters and digits.
#[verifier::external_body]
fn char_is_alphanumeric(c: char) -> (b: bool)
    ensures
        b == unicode_alphanumeric(c),
        (c as u32) < 128 ==> (b == ascii_alphanumeric(c)),
{
    c.is_alphanumeric()
}

/// UTF-16 encoding of one character (as `char::encode_utf16`).
pub open spec fn utf16_units(c: char) -> Seq<u16> {
    let u = c as u32;
    if u < 0x10000 {
        seq![u as u16]
    } else {
        let v = u - 0x10000;
        seq![(0xD800 + v / 0x400) as u16, (0xDC00 + v % 0x400) as u16]
    }
}

/// UTF-16 encoding of a character sequence.
pub open spec fn utf16_of(s: Seq<char>) -> Seq<u16>
    decreases s.len(),
{
    if s.len() == 0 {
        Seq::empty()
    } else {
        utf16_of(s.drop_last()) + utf16_units(s.last())
    }
}

/// Does typing `text` after text that ended alphanumeric need a space?
pub open spec fn needs_space(last_alnum: bool, text: Seq<char>) -> bool {
    last_alnum && text.len() > 0 && unicode_alphanumeric(text[0])
}

/// The code units typed for `text`.
pub open spec fn typed_units(last_alnum: bool, text: Seq<char>) -> Seq<u16> {
    if needs_space(last_alnum, text) {
        seq![0x20u16] + utf16_of(text)
    } else {
        utf16_of(text)
    }
}

/// Did the typed text end with an alphanumeric character?
pub open spec fn ends_alnum(last_alnum: bool, text: Seq<char>) -> bool {
    if text.len() > 0 {
        unicode_alphanumeric(text.last())
    } else {
        last_alnum
    }
}

pub struct Typer {
    pub last_char_was_alphanumeric: bool,
}

fn encode_utf16(c: char, out: &mut Vec<u16>)
    ensures
        final(out)@ == old(out)@ + utf16_units(c),
{
    let u = c as u32;
    if u < 0x10000 {
        out.push(u as u16);
    } else {
        let v = u - 0x10000;
        out.push((0xD800 + v / 0x400) as u16);
        out.push((0xDC00 + v % 0x400) as u16);
    }
}

impl Typer {
    pub fn new() -> (t: Self)
        ensures
            !t.last_char_was_alphanumeric,
    {
        Typer { last_char_was_alphanumeric: false }
    }

    /// The UTF-16 code units to type for `text`; each is sent as a Unicode
    /// key down and key up.
    pub fn inject(&mut self, text: &str) -> (units: Vec<u16>)
        ensures
            units@ == typed_units(old(self).last_char_was_alphanumeric, text@),
            final(self).last_char_was_alphanumeric == ends_alnum(
                old(self).last_char_was_alphanumeric,
                text@,
            ),
    {
        let chars = chars_of(text);
        let mut units: Vec<u16> = Vec::new();
        if chars.len() > 0 && self.last_char_was_alphanumeric && char_is_alphanumeric(chars[0]) {
            units.push(0x20);
        }
        let ghost prefix = units@;
        let mut i: usize = 0;
        while i < chars.len()
            invariant
                chars@ == text@,
                i <= chars@.len(),
                units@ == prefix + utf16_of(chars@.take(i as int)),
                i > 0 ==> self.last_char_was_alphanumeric == unicode_alphanumeric(chars@[i - 1]),
                i == 0 ==> self.last_char_was_alphanumeric == old(self).last_char_was_alphanumeric,
            decreases chars.len() - i,
        {
            let c = chars[i];
            proof {
                assert(chars@.take(i + 1).drop_last() == chars@.take(i as int));
            }
            encode_utf16(c, &mut units);
            assert(units@ == prefix + utf16_of(chars@.take(i + 1)));
            self.last_char_was_alphanumeric = char_is_alphanumeric(c);
            i = i + 1;
        }
        assert(chars@.take(chars@.len() as int) == chars@);
        units
    }
}

/// Two consecutive sentences that meet between alphanumeric characters are
/// separated by exactly one space; otherwise nothing is added.
pub proof fn lemma_space_between_runs(last_alnum: bool, first: Seq<char>, second: Seq<char>)
    requires
        first.len() > 0,
    ensures
        typed_units(ends_alnum(last_alnum, first), second) == if unicode_alphanumeric(first.last())
            && second.len() > 0 && unicode_alphanumeric(second[0]) {
            seq![0x20u16] + utf16_of(second)
        } else {
            utf16_of(second)
        },
{
}


/// Reading UTF-16 code units back as characters: a high surrogate
/// (`D800..DC00`) followed by a low surrogate (`DC00..E000`) is one
/// character from U+10000 up; any other unit is the character of that value.
pub open spec fn utf16_decode(u: Seq<u16>) -> Seq<char>
    decreases u.len(),
{
    if u.len() == 0 {
        Seq::empty()
    } else if u.len() >= 2 && 0xD800 <= u[0] < 0xDC00 && 0xDC00 <= u[1] < 0xE000 {
        seq![(0x10000 + (u[0] - 0xD800) * 0x400 + (u[1] - 0xDC00)) as char] + utf16_decode(
            u.subrange(2, u.len() as int),
        )
    } else {
        seq![u[0] as char] + utf16_decode(u.subrange(1, u.len() as int))
    }
}

/// One character's units are those of UTF-16: a character below U+10000 is
/// the single unit of its value; any other is a high surrogate followed by a
/// low surrogate that together carry its value.
pub proof fn lemma_utf16_units_shape(c: char)
    ensures
        (c as u32) < 0x10000 ==> utf16_units(c) == seq![c as u16],
        (c as u32) >= 0x10000 ==> ({
            let u = utf16_units(c);
            &&& u.len() == 2
            &&& 0xD800 <= u[0] < 0xDC00
            &&& 0xDC00 <= u[1] < 0xE000
            &&& 0x10000 + (u[0] - 0xD800) * 0x400 + (u[1] - 0xDC00) == c as u32
        }),
{
}

/// The units of a text are the units of its characters, one after another.
pub proof fn lemma_utf16_of_append(s: Seq<char>, t: Seq<char>)
    ensures
        utf16_of(s + t) == utf16_of(s) + utf16_of(t),
    decreases t.len(),
{
    if t.len() == 0 {
        assert(s + t =~= s);
    } else {
        lemma_utf16_of_append(s, t.drop_last());
        assert((s + t).drop_last() =~= s + t.drop_last());
        assert((s + t).last() == t.last());
    }
}

/// Decoding the units of one character followed by any units gives that
/// character followed by the decoding of the rest.
proof fn lemma_decode_units_then(c: char, rest: Seq<u16>)
    ensures
        utf16_decode(utf16_units(c) + rest) == seq![c] + utf16_decode(rest),
{
    let u = utf16_units(c) + rest;
    let n = utf16_units(c).len() as int;
    assert(u.subrange(n, u.len() as int) =~= rest);
}

/// Decoding the typed units of any text gives the text back.
pub proof fn lemma_utf16_round_trip(s: Seq<char>)
    ensures
        utf16_decode(utf16_of(s)) == s,
    decreases s.len(),
{
    if s.len() > 0 {
        let rest = s.drop_first();
        lemma_utf16_round_trip(rest);
        assert(seq![s[0]] + rest =~= s);
        lemma_utf16_of_append(seq![s[0]], rest);
        assert(seq![s[0]].drop_last() =~= Seq::<char>::empty());
        assert(utf16_of(Seq::<char>::empty()) == Seq::<u16>::empty());
        assert(utf16_of(seq![s[0]]) == utf16_of(Seq::<char>::empty()) + utf16_units(s[0]));
        assert(Seq::<u16>::empty() + utf16_units(s[0]) =~= utf16_units(s[0]));
        lemma_decode_units_then(s[0], utf16_of(rest));
    }
}

} // verus!
