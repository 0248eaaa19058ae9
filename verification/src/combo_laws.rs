//! The display text of every accepted combo parses back to the same combo.

use vstd::prelude::*;
use crate::hotkey::{
    combo_is_safe, mod_count,
    combo_text, display_parts, lemma_parsed_combo_is_safe, parse_finish, parse_step, spec_parse_combo,
    count_nonzero, empty_view, first_zero_from, mod_names, parse_pieces, spec_push_mod, ComboFault,
    ComboView, ParseState, decimal_text, decimal_value, fkey_digits, fkey_number, is_digit, is_fkey_vk, key_vk, token_kind, token_of, vk_name, TokenKind, VK_LCONTROL, VK_LMENU, VK_LSHIFT, VK_LWIN, VK_RCONTROL,
    VK_RMENU, VK_RSHIFT, VK_RWIN,
};
use crate::text::{ascii_lowercase, is_white_space, join_with, split_on, trim_end, trim_start};

verus! {

/// A key name as the display writes it: lowercase ASCII letters and digits.
pub open spec fn is_name_char(c: char) -> bool {
    ('a' <= c && c <= 'z') || ('0' <= c && c <= '9')
}

pub open spec fn plain_name(p: Seq<char>) -> bool {
    p.len() >= 1 && forall|k: int| 0 <= k < p.len() ==> is_name_char(#[trigger] p[k])
}

pub open spec fn no_plus(p: Seq<char>) -> bool {
    forall|k: int| 0 <= k < p.len() ==> #[trigger] p[k] != '+'
}

proof fn lemma_plain_token(p: Seq<char>)
    requires
        plain_name(p),
    ensures
        token_of(p) == p,
        no_plus(p),
{
    assert(!is_white_space(p[0]));
    assert(trim_start(p) == p);
    assert(!is_white_space(p.last()));
    assert(trim_end(p) == p);
    assert(ascii_lowercase(p) =~= p);
}

proof fn lemma_split_append(s: Seq<char>, p: Seq<char>)
    requires
        no_plus(p),
    ensures
        split_on(s + p, '+') == {
            let r = split_on(s, '+');
            r.update(r.len() - 1, r.last() + p)
        },
    decreases p.len(),
{
    crate::text::lemma_split_on_nonempty(s, '+');
    if p.len() == 0 {
        assert(s + p =~= s);
        let r = split_on(s, '+');
        assert(r.last() + p =~= r.last());
        assert(r.update(r.len() - 1, r.last()) =~= r);
    } else {
        let q = p.drop_last();
        lemma_split_append(s, q);
        assert((s + p).drop_last() =~= s + q);
        assert((s + p).last() == p.last());
        assert(p[p.len() - 1] != '+');
        let r = split_on(s, '+');
        assert((r.last() + q).push(p.last()) =~= r.last() + p);
        let rq = r.update(r.len() - 1, r.last() + q);
        assert(rq.update(rq.len() - 1, rq.last().push(p.last())) =~= r.update(r.len() - 1, r.last() + p));
    }
}

/// Splitting the `+`-join of pieces without `+` gives the pieces back.
proof fn lemma_split_join(parts: Seq<Seq<char>>)
    requires
        parts.len() >= 1,
        forall|i: int| 0 <= i < parts.len() ==> no_plus(#[trigger] parts[i]),
    ensures
        split_on(join_with(parts, '+'), '+') == parts,
    decreases parts.len(),
{
    if parts.len() == 1 {
        lemma_split_append(Seq::<char>::empty(), parts[0]);
        assert(Seq::<char>::empty() + parts[0] =~= parts[0]);
        let r = split_on(Seq::<char>::empty(), '+');
        assert(r.update(r.len() - 1, r.last() + parts[0]) =~= parts);
        assert(join_with(parts, '+') == parts[0]);
    } else {
        let init = parts.drop_last();
        assert forall|i: int| 0 <= i < init.len() implies no_plus(#[trigger] init[i]) by {
            assert(init[i] == parts[i]);
        }
        lemma_split_join(init);
        let j = join_with(init, '+');
        assert(join_with(parts, '+') == j.push('+') + parts.last());
        assert(no_plus(parts[parts.len() - 1]));
        lemma_split_append(j.push('+'), parts.last());
        assert(j.push('+').drop_last() =~= j);
        let r = split_on(j.push('+'), '+');
        assert(r == init.push(Seq::<char>::empty()));
        assert(r.update(r.len() - 1, r.last() + parts.last()) =~= parts);
    }
}

/// The characters of the key-name literals.
proof fn lemma_name_literals()
    ensures
        "ctrl"@.len() == 4 && "ctrl"@[0] == 'c' && "ctrl"@[1] == 't' && "ctrl"@[2] == 'r' && "ctrl"@[3] == 'l',
        "control"@.len() == 7 && "control"@[0] == 'c' && "control"@[1] == 'o' && "control"@[2] == 'n' && "control"@[3] == 't' && "control"@[4] == 'r' && "control"@[5] == 'o' && "control"@[6] == 'l',
        "lctrl"@.len() == 5 && "lctrl"@[0] == 'l' && "lctrl"@[1] == 'c' && "lctrl"@[2] == 't' && "lctrl"@[3] == 'r' && "lctrl"@[4] == 'l',
        "leftctrl"@.len() == 8 && "leftctrl"@[0] == 'l' && "leftctrl"@[1] == 'e' && "leftctrl"@[2] == 'f' && "leftctrl"@[3] == 't' && "leftctrl"@[4] == 'c' && "leftctrl"@[5] == 't' && "leftctrl"@[6] == 'r' && "leftctrl"@[7] == 'l',
        "rctrl"@.len() == 5 && "rctrl"@[0] == 'r' && "rctrl"@[1] == 'c' && "rctrl"@[2] == 't' && "rctrl"@[3] == 'r' && "rctrl"@[4] == 'l',
        "rightctrl"@.len() == 9 && "rightctrl"@[0] == 'r' && "rightctrl"@[1] == 'i' && "rightctrl"@[2] == 'g' && "rightctrl"@[3] == 'h' && "rightctrl"@[4] == 't' && "rightctrl"@[5] == 'c' && "rightctrl"@[6] == 't' && "rightctrl"@[7] == 'r' && "rightctrl"@[8] == 'l',
        "alt"@.len() == 3 && "alt"@[0] == 'a' && "alt"@[1] == 'l' && "alt"@[2] == 't',
        "option"@.len() == 6 && "option"@[0] == 'o' && "option"@[1] == 'p' && "option"@[2] == 't' && "option"@[3] == 'i' && "option"@[4] == 'o' && "option"@[5] == 'n',
        "lalt"@.len() == 4 && "lalt"@[0] == 'l' && "lalt"@[1] == 'a' && "lalt"@[2] == 'l' && "lalt"@[3] == 't',
        "leftalt"@.len() == 7 && "leftalt"@[0] == 'l' && "leftalt"@[1] == 'e' && "leftalt"@[2] == 'f' && "leftalt"@[3] == 't' && "leftalt"@[4] == 'a' && "leftalt"@[5] == 'l' && "leftalt"@[6] == 't',
        "ralt"@.len() == 4 && "ralt"@[0] == 'r' && "ralt"@[1] == 'a' && "ralt"@[2] == 'l' && "ralt"@[3] == 't',
        "rightalt"@.len() == 8 && "rightalt"@[0] == 'r' && "rightalt"@[1] == 'i' && "rightalt"@[2] == 'g' && "rightalt"@[3] == 'h' && "rightalt"@[4] == 't' && "rightalt"@[5] == 'a' && "rightalt"@[6] == 'l' && "rightalt"@[7] == 't',
        "shift"@.len() == 5 && "shift"@[0] == 's' && "shift"@[1] == 'h' && "shift"@[2] == 'i' && "shift"@[3] == 'f' && "shift"@[4] == 't',
        "lshift"@.len() == 6 && "lshift"@[0] == 'l' && "lshift"@[1] == 's' && "lshift"@[2] == 'h' && "lshift"@[3] == 'i' && "lshift"@[4] == 'f' && "lshift"@[5] == 't',
        "leftshift"@.len() == 9 && "leftshift"@[0] == 'l' && "leftshift"@[1] == 'e' && "leftshift"@[2] == 'f' && "leftshift"@[3] == 't' && "leftshift"@[4] == 's' && "leftshift"@[5] == 'h' && "leftshift"@[6] == 'i' && "leftshift"@[7] == 'f' && "leftshift"@[8] == 't',
        "rshift"@.len() == 6 && "rshift"@[0] == 'r' && "rshift"@[1] == 's' && "rshift"@[2] == 'h' && "rshift"@[3] == 'i' && "rshift"@[4] == 'f' && "rshift"@[5] == 't',
        "rightshift"@.len() == 10 && "rightshift"@[0] == 'r' && "rightshift"@[1] == 'i' && "rightshift"@[2] == 'g' && "rightshift"@[3] == 'h' && "rightshift"@[4] == 't' && "rightshift"@[5] == 's' && "rightshift"@[6] == 'h' && "rightshift"@[7] == 'i' && "rightshift"@[8] == 'f' && "rightshift"@[9] == 't',
        "win"@.len() == 3 && "win"@[0] == 'w' && "win"@[1] == 'i' && "win"@[2] == 'n',
        "super"@.len() == 5 && "super"@[0] == 's' && "super"@[1] == 'u' && "super"@[2] == 'p' && "super"@[3] == 'e' && "super"@[4] == 'r',
        "meta"@.len() == 4 && "meta"@[0] == 'm' && "meta"@[1] == 'e' && "meta"@[2] == 't' && "meta"@[3] == 'a',
        "cmd"@.len() == 3 && "cmd"@[0] == 'c' && "cmd"@[1] == 'm' && "cmd"@[2] == 'd',
        "command"@.len() == 7 && "command"@[0] == 'c' && "command"@[1] == 'o' && "command"@[2] == 'm' && "command"@[3] == 'm' && "command"@[4] == 'a' && "command"@[5] == 'n' && "command"@[6] == 'd',
        "lwin"@.len() == 4 && "lwin"@[0] == 'l' && "lwin"@[1] == 'w' && "lwin"@[2] == 'i' && "lwin"@[3] == 'n',
        "leftwin"@.len() == 7 && "leftwin"@[0] == 'l' && "leftwin"@[1] == 'e' && "leftwin"@[2] == 'f' && "leftwin"@[3] == 't' && "leftwin"@[4] == 'w' && "leftwin"@[5] == 'i' && "leftwin"@[6] == 'n',
        "rwin"@.len() == 4 && "rwin"@[0] == 'r' && "rwin"@[1] == 'w' && "rwin"@[2] == 'i' && "rwin"@[3] == 'n',
        "rightwin"@.len() == 8 && "rightwin"@[0] == 'r' && "rightwin"@[1] == 'i' && "rightwin"@[2] == 'g' && "rightwin"@[3] == 'h' && "rightwin"@[4] == 't' && "rightwin"@[5] == 'w' && "rightwin"@[6] == 'i' && "rightwin"@[7] == 'n',
        "mouse4"@.len() == 6 && "mouse4"@[0] == 'm' && "mouse4"@[1] == 'o' && "mouse4"@[2] == 'u' && "mouse4"@[3] == 's' && "mouse4"@[4] == 'e' && "mouse4"@[5] == '4',
        "xbutton1"@.len() == 8 && "xbutton1"@[0] == 'x' && "xbutton1"@[1] == 'b' && "xbutton1"@[2] == 'u' && "xbutton1"@[3] == 't' && "xbutton1"@[4] == 't' && "xbutton1"@[5] == 'o' && "xbutton1"@[6] == 'n' && "xbutton1"@[7] == '1',
        "x1"@.len() == 2 && "x1"@[0] == 'x' && "x1"@[1] == '1',
        "mouse5"@.len() == 6 && "mouse5"@[0] == 'm' && "mouse5"@[1] == 'o' && "mouse5"@[2] == 'u' && "mouse5"@[3] == 's' && "mouse5"@[4] == 'e' && "mouse5"@[5] == '5',
        "xbutton2"@.len() == 8 && "xbutton2"@[0] == 'x' && "xbutton2"@[1] == 'b' && "xbutton2"@[2] == 'u' && "xbutton2"@[3] == 't' && "xbutton2"@[4] == 't' && "xbutton2"@[5] == 'o' && "xbutton2"@[6] == 'n' && "xbutton2"@[7] == '2',
        "x2"@.len() == 2 && "x2"@[0] == 'x' && "x2"@[1] == '2',
        "space"@.len() == 5 && "space"@[0] == 's' && "space"@[1] == 'p' && "space"@[2] == 'a' && "space"@[3] == 'c' && "space"@[4] == 'e',
        "tab"@.len() == 3 && "tab"@[0] == 't' && "tab"@[1] == 'a' && "tab"@[2] == 'b',
        "enter"@.len() == 5 && "enter"@[0] == 'e' && "enter"@[1] == 'n' && "enter"@[2] == 't' && "enter"@[3] == 'e' && "enter"@[4] == 'r',
        "return"@.len() == 6 && "return"@[0] == 'r' && "return"@[1] == 'e' && "return"@[2] == 't' && "return"@[3] == 'u' && "return"@[4] == 'r' && "return"@[5] == 'n',
        "backspace"@.len() == 9 && "backspace"@[0] == 'b' && "backspace"@[1] == 'a' && "backspace"@[2] == 'c' && "backspace"@[3] == 'k' && "backspace"@[4] == 's' && "backspace"@[5] == 'p' && "backspace"@[6] == 'a' && "backspace"@[7] == 'c' && "backspace"@[8] == 'e',
        "escape"@.len() == 6 && "escape"@[0] == 'e' && "escape"@[1] == 's' && "escape"@[2] == 'c' && "escape"@[3] == 'a' && "escape"@[4] == 'p' && "escape"@[5] == 'e',
        "esc"@.len() == 3 && "esc"@[0] == 'e' && "esc"@[1] == 's' && "esc"@[2] == 'c',
        "pause"@.len() == 5 && "pause"@[0] == 'p' && "pause"@[1] == 'a' && "pause"@[2] == 'u' && "pause"@[3] == 's' && "pause"@[4] == 'e',
        "insert"@.len() == 6 && "insert"@[0] == 'i' && "insert"@[1] == 'n' && "insert"@[2] == 's' && "insert"@[3] == 'e' && "insert"@[4] == 'r' && "insert"@[5] == 't',
        "delete"@.len() == 6 && "delete"@[0] == 'd' && "delete"@[1] == 'e' && "delete"@[2] == 'l' && "delete"@[3] == 'e' && "delete"@[4] == 't' && "delete"@[5] == 'e',
        "del"@.len() == 3 && "del"@[0] == 'd' && "del"@[1] == 'e' && "del"@[2] == 'l',
        "home"@.len() == 4 && "home"@[0] == 'h' && "home"@[1] == 'o' && "home"@[2] == 'm' && "home"@[3] == 'e',
        "end"@.len() == 3 && "end"@[0] == 'e' && "end"@[1] == 'n' && "end"@[2] == 'd',
        "pageup"@.len() == 6 && "pageup"@[0] == 'p' && "pageup"@[1] == 'a' && "pageup"@[2] == 'g' && "pageup"@[3] == 'e' && "pageup"@[4] == 'u' && "pageup"@[5] == 'p',
        "pagedown"@.len() == 8 && "pagedown"@[0] == 'p' && "pagedown"@[1] == 'a' && "pagedown"@[2] == 'g' && "pagedown"@[3] == 'e' && "pagedown"@[4] == 'd' && "pagedown"@[5] == 'o' && "pagedown"@[6] == 'w' && "pagedown"@[7] == 'n',
        "up"@.len() == 2 && "up"@[0] == 'u' && "up"@[1] == 'p',
        "left"@.len() == 4 && "left"@[0] == 'l' && "left"@[1] == 'e' && "left"@[2] == 'f' && "left"@[3] == 't',
        "down"@.len() == 4 && "down"@[0] == 'd' && "down"@[1] == 'o' && "down"@[2] == 'w' && "down"@[3] == 'n',
        "right"@.len() == 5 && "right"@[0] == 'r' && "right"@[1] == 'i' && "right"@[2] == 'g' && "right"@[3] == 'h' && "right"@[4] == 't',
        "minus"@.len() == 5 && "minus"@[0] == 'm' && "minus"@[1] == 'i' && "minus"@[2] == 'n' && "minus"@[3] == 'u' && "minus"@[4] == 's',
        "equal"@.len() == 5 && "equal"@[0] == 'e' && "equal"@[1] == 'q' && "equal"@[2] == 'u' && "equal"@[3] == 'a' && "equal"@[4] == 'l',
        "equals"@.len() == 6 && "equals"@[0] == 'e' && "equals"@[1] == 'q' && "equals"@[2] == 'u' && "equals"@[3] == 'a' && "equals"@[4] == 'l' && "equals"@[5] == 's',
        "bracketleft"@.len() == 11 && "bracketleft"@[0] == 'b' && "bracketleft"@[1] == 'r' && "bracketleft"@[2] == 'a' && "bracketleft"@[3] == 'c' && "bracketleft"@[4] == 'k' && "bracketleft"@[5] == 'e' && "bracketleft"@[6] == 't' && "bracketleft"@[7] == 'l' && "bracketleft"@[8] == 'e' && "bracketleft"@[9] == 'f' && "bracketleft"@[10] == 't',
        "leftbracket"@.len() == 11 && "leftbracket"@[0] == 'l' && "leftbracket"@[1] == 'e' && "leftbracket"@[2] == 'f' && "leftbracket"@[3] == 't' && "leftbracket"@[4] == 'b' && "leftbracket"@[5] == 'r' && "leftbracket"@[6] == 'a' && "leftbracket"@[7] == 'c' && "leftbracket"@[8] == 'k' && "leftbracket"@[9] == 'e' && "leftbracket"@[10] == 't',
        "bracketright"@.len() == 12 && "bracketright"@[0] == 'b' && "bracketright"@[1] == 'r' && "bracketright"@[2] == 'a' && "bracketright"@[3] == 'c' && "bracketright"@[4] == 'k' && "bracketright"@[5] == 'e' && "bracketright"@[6] == 't' && "bracketright"@[7] == 'r' && "bracketright"@[8] == 'i' && "bracketright"@[9] == 'g' && "bracketright"@[10] == 'h' && "bracketright"@[11] == 't',
        "rightbracket"@.len() == 12 && "rightbracket"@[0] == 'r' && "rightbracket"@[1] == 'i' && "rightbracket"@[2] == 'g' && "rightbracket"@[3] == 'h' && "rightbracket"@[4] == 't' && "rightbracket"@[5] == 'b' && "rightbracket"@[6] == 'r' && "rightbracket"@[7] == 'a' && "rightbracket"@[8] == 'c' && "rightbracket"@[9] == 'k' && "rightbracket"@[10] == 'e' && "rightbracket"@[11] == 't',
        "backslash"@.len() == 9 && "backslash"@[0] == 'b' && "backslash"@[1] == 'a' && "backslash"@[2] == 'c' && "backslash"@[3] == 'k' && "backslash"@[4] == 's' && "backslash"@[5] == 'l' && "backslash"@[6] == 'a' && "backslash"@[7] == 's' && "backslash"@[8] == 'h',
        "semicolon"@.len() == 9 && "semicolon"@[0] == 's' && "semicolon"@[1] == 'e' && "semicolon"@[2] == 'm' && "semicolon"@[3] == 'i' && "semicolon"@[4] == 'c' && "semicolon"@[5] == 'o' && "semicolon"@[6] == 'l' && "semicolon"@[7] == 'o' && "semicolon"@[8] == 'n',
        "quote"@.len() == 5 && "quote"@[0] == 'q' && "quote"@[1] == 'u' && "quote"@[2] == 'o' && "quote"@[3] == 't' && "quote"@[4] == 'e',
        "apostrophe"@.len() == 10 && "apostrophe"@[0] == 'a' && "apostrophe"@[1] == 'p' && "apostrophe"@[2] == 'o' && "apostrophe"@[3] == 's' && "apostrophe"@[4] == 't' && "apostrophe"@[5] == 'r' && "apostrophe"@[6] == 'o' && "apostrophe"@[7] == 'p' && "apostrophe"@[8] == 'h' && "apostrophe"@[9] == 'e',
        "comma"@.len() == 5 && "comma"@[0] == 'c' && "comma"@[1] == 'o' && "comma"@[2] == 'm' && "comma"@[3] == 'm' && "comma"@[4] == 'a',
        "period"@.len() == 6 && "period"@[0] == 'p' && "period"@[1] == 'e' && "period"@[2] == 'r' && "period"@[3] == 'i' && "period"@[4] == 'o' && "period"@[5] == 'd',
        "dot"@.len() == 3 && "dot"@[0] == 'd' && "dot"@[1] == 'o' && "dot"@[2] == 't',
        "slash"@.len() == 5 && "slash"@[0] == 's' && "slash"@[1] == 'l' && "slash"@[2] == 'a' && "slash"@[3] == 's' && "slash"@[4] == 'h',
        "backquote"@.len() == 9 && "backquote"@[0] == 'b' && "backquote"@[1] == 'a' && "backquote"@[2] == 'c' && "backquote"@[3] == 'k' && "backquote"@[4] == 'q' && "backquote"@[5] == 'u' && "backquote"@[6] == 'o' && "backquote"@[7] == 't' && "backquote"@[8] == 'e',
        "grave"@.len() == 5 && "grave"@[0] == 'g' && "grave"@[1] == 'r' && "grave"@[2] == 'a' && "grave"@[3] == 'v' && "grave"@[4] == 'e',
        "f"@.len() == 1 && "f"@[0] == 'f',
{
    reveal_strlit("ctrl");
    reveal_strlit("control");
    reveal_strlit("lctrl");
    reveal_strlit("leftctrl");
    reveal_strlit("rctrl");
    reveal_strlit("rightctrl");
    reveal_strlit("alt");
    reveal_strlit("option");
    reveal_strlit("lalt");
    reveal_strlit("leftalt");
    reveal_strlit("ralt");
    reveal_strlit("rightalt");
    reveal_strlit("shift");
    reveal_strlit("lshift");
    reveal_strlit("leftshift");
    reveal_strlit("rshift");
    reveal_strlit("rightshift");
    reveal_strlit("win");
    reveal_strlit("super");
    reveal_strlit("meta");
    reveal_strlit("cmd");
    reveal_strlit("command");
    reveal_strlit("lwin");
    reveal_strlit("leftwin");
    reveal_strlit("rwin");
    reveal_strlit("rightwin");
    reveal_strlit("mouse4");
    reveal_strlit("xbutton1");
    reveal_strlit("x1");
    reveal_strlit("mouse5");
    reveal_strlit("xbutton2");
    reveal_strlit("x2");
    reveal_strlit("space");
    reveal_strlit("tab");
    reveal_strlit("enter");
    reveal_strlit("return");
    reveal_strlit("backspace");
    reveal_strlit("escape");
    reveal_strlit("esc");
    reveal_strlit("pause");
    reveal_strlit("insert");
    reveal_strlit("delete");
    reveal_strlit("del");
    reveal_strlit("home");
    reveal_strlit("end");
    reveal_strlit("pageup");
    reveal_strlit("pagedown");
    reveal_strlit("up");
    reveal_strlit("left");
    reveal_strlit("down");
    reveal_strlit("right");
    reveal_strlit("minus");
    reveal_strlit("equal");
    reveal_strlit("equals");
    reveal_strlit("bracketleft");
    reveal_strlit("leftbracket");
    reveal_strlit("bracketright");
    reveal_strlit("rightbracket");
    reveal_strlit("backslash");
    reveal_strlit("semicolon");
    reveal_strlit("quote");
    reveal_strlit("apostrophe");
    reveal_strlit("comma");
    reveal_strlit("period");
    reveal_strlit("dot");
    reveal_strlit("slash");
    reveal_strlit("backquote");
    reveal_strlit("grave");
    reveal_strlit("f");
}

/// The side-specific modifier keys.
pub open spec fn is_mod_vk(v: u16) -> bool {
    v == VK_LCONTROL || v == VK_RCONTROL || v == VK_LMENU || v == VK_RMENU || v == VK_LSHIFT || v
        == VK_RSHIFT || v == VK_LWIN || v == VK_RWIN
}

proof fn lemma_mod_name(v: u16)
    requires
        is_mod_vk(v),
    ensures
        plain_name(vk_name(v)),
        token_kind(vk_name(v)) == TokenKind::Exact(v),
{
    lemma_name_literals();
}

proof fn lemma_flag_names()
    ensures
        plain_name("ctrl"@) && token_kind("ctrl"@) == TokenKind::AnyCtrl,
        plain_name("alt"@) && token_kind("alt"@) == TokenKind::AnyAlt,
        plain_name("shift"@) && token_kind("shift"@) == TokenKind::AnyShift,
        plain_name("win"@) && token_kind("win"@) == TokenKind::AnyWin,
{
    lemma_name_literals();
}

/// The virtual-key codes of the ordinary named main keys.
pub open spec fn is_named_vk(v: u16) -> bool {
    v == 0x20 || v == 0x09 || v == 0x0D || v == 0x08 || v == 0x1B || v == 0x13 || v == 0x2D || v
        == 0x2E || v == 0x24 || v == 0x23 || v == 0x21 || v == 0x22 || v == 0x26 || v == 0x25 || v
        == 0x28 || v == 0x27 || v == 0xBD || v == 0xBB || v == 0xDB || v == 0xDD || v == 0xDC || v
        == 0xBA || v == 0xDE || v == 0xBC || v == 0xBE || v == 0xBF || v == 0xC0
}

/// The codes that a key name can denote as main key.
pub open spec fn is_main_vk(v: u16) -> bool {
    (0x41 <= v <= 0x5A) || (0x30 <= v <= 0x39) || is_fkey_vk(v) || is_named_vk(v)
}

/// The display name of a main key is a plain name that reads back as the
/// same key.
pub open spec fn main_name_ok(v: u16) -> bool {
    &&& plain_name(vk_name(v))
    &&& token_kind(vk_name(v)) == TokenKind::Other
    &&& key_vk(vk_name(v)) == Some(v)
}

proof fn lemma_key_vk_is_main(t: Seq<char>)
    ensures
        key_vk(t) matches Some(v) ==> is_main_vk(v),
{
}

#[verifier::rlimit(50)]
proof fn lemma_named_main(v: u16)
    requires
        is_named_vk(v),
    ensures
        main_name_ok(v),
{
    lemma_name_literals();
}

proof fn lemma_letter_digit_main(v: u16)
    requires
        (0x41 <= v <= 0x5A) || (0x30 <= v <= 0x39),
    ensures
        main_name_ok(v),
{
    lemma_name_literals();
    let n = vk_name(v);
    assert(n.len() == 1);
}

proof fn lemma_digit_char(k: nat)
    requires
        k < 10,
    ensures
        ((48 + k) as char) as u32 == 48 + k,
        is_digit((48 + k) as char),
{
}

proof fn lemma_decimal_round_trip(n: nat)
    requires
        1 <= n < 100,
    ensures
        decimal_text(n).len() >= 1,
        forall|k: int| 0 <= k < decimal_text(n).len() ==> is_digit(#[trigger] decimal_text(n)[k]),
        decimal_value(decimal_text(n)) == n,
{
    let d = decimal_text(n);
    if n >= 10 {
        let hi = n / 10;
        let lo = n % 10;
        lemma_digit_char(hi);
        lemma_digit_char(lo);
        assert(decimal_text(hi) == seq![(48 + hi) as char]);
        assert(d =~= seq![(48 + hi) as char, (48 + lo) as char]);
        let e = d.drop_last();
        assert(e =~= seq![(48 + hi) as char]);
        assert(e.drop_last() =~= Seq::<char>::empty());
        assert(decimal_value(e.drop_last()) == 0);
        assert(e.last() == (48 + hi) as char);
        assert(decimal_value(e) == hi);
        assert(d.drop_last() =~= e);
        assert(d.last() == (48 + lo) as char);
        assert(decimal_value(d) == hi * 10 + lo);
        assert(hi * 10 + lo == n);
    } else {
        lemma_digit_char(n);
        assert(d =~= seq![(48 + n) as char]);
        assert(d.drop_last() =~= Seq::<char>::empty());
        assert(decimal_value(d.drop_last()) == 0);
        assert(d.last() == (48 + n) as char);
    }
}

proof fn lemma_fkey_main(v: u16)
    requires
        is_fkey_vk(v),
    ensures
        main_name_ok(v),
{
    lemma_name_literals();
    let n = (v - 0x6F) as nat;
    lemma_decimal_round_trip(n);
    let d = decimal_text(n);
    let name = vk_name(v);
    assert(name == "f"@ + d);
    assert(name[0] == 'f');
    assert(name.drop_first() =~= d);
    assert(name.len() >= 2);
    assert(name[1] == d[0]);
    assert(is_digit(d[0]));
    assert(d[0] != '+');
    assert(fkey_digits(name) =~= d);
    assert(fkey_number(name) == Some(n));
    assert forall|k: int| 0 <= k < name.len() implies is_name_char(#[trigger] name[k]) by {
        if k > 0 {
            assert(name[k] == d[k - 1]);
        }
    }
}

/// Every main key that parsing can produce displays as a name that parses
/// back to it.
pub proof fn lemma_main_name(v: u16)
    requires
        is_main_vk(v),
    ensures
        main_name_ok(v),
{
    if (0x41 <= v <= 0x5A) || (0x30 <= v <= 0x39) {
        lemma_letter_digit_main(v);
    } else if is_fkey_vk(v) {
        lemma_fkey_main(v);
    } else {
        lemma_named_main(v);
    }
}

pub open spec fn zeros(n: nat) -> Seq<u16> {
    Seq::new(n, |i: int| 0u16)
}

/// The slot array that holding the modifiers `l` (in order) gives.
pub open spec fn pad_mods(l: Seq<u16>) -> Seq<u16> {
    l + zeros((8 - l.len()) as nat)
}

/// Distinct side-specific modifiers, at most eight.
pub open spec fn good_mod_list(l: Seq<u16>) -> bool {
    &&& l.len() <= 8
    &&& forall|i: int| 0 <= i < l.len() ==> is_mod_vk(#[trigger] l[i])
    &&& forall|i: int, j: int| 0 <= i < j < l.len() ==> l[i] != l[j]
}

/// The shape of every parser state that a successful parse passes through.
pub open spec fn reachable_state(st: ParseState) -> bool {
    &&& exists|l: Seq<u16>| good_mod_list(l) && st.combo.mods == pad_mods(l)
    &&& st.combo.main_vk == 0
    &&& st.main matches Some(v) ==> is_main_vk(v)
}

proof fn lemma_count_nonzero_pad(l: Seq<u16>, k: nat)
    requires
        forall|i: int| 0 <= i < l.len() ==> #[trigger] l[i] != 0,
    ensures
        count_nonzero(l + zeros(k)) == l.len(),
        mod_names(l + zeros(k)) == l.map_values(|v: u16| vk_name(v)),
    decreases l.len() + k,
{
    if k > 0 {
        assert((l + zeros(k)).drop_last() =~= l + zeros((k - 1) as nat));
        assert((l + zeros(k)).last() == 0);
        lemma_count_nonzero_pad(l, (k - 1) as nat);
    } else if l.len() > 0 {
        let m = l.drop_last();
        assert(l + zeros(0) =~= l);
        assert(m + zeros(0) =~= m);
        assert forall|i: int| 0 <= i < m.len() implies #[trigger] m[i] != 0 by {
            assert(m[i] == l[i]);
        }
        lemma_count_nonzero_pad(m, 0);
        assert(l.drop_last() == m);
        assert(l.map_values(|v: u16| vk_name(v)) =~= m.map_values(|v: u16| vk_name(v)).push(vk_name(l.last())));
    } else {
        assert(l + zeros(0) =~= Seq::<u16>::empty());
        assert(l.map_values(|v: u16| vk_name(v)) =~= Seq::<Seq<char>>::empty());
    }
}

proof fn lemma_first_zero_pad(l: Seq<u16>, j: int)
    requires
        good_mod_list(l),
        l.len() < 8,
        0 <= j <= l.len(),
    ensures
        first_zero_from(pad_mods(l), j) == Some(l.len() as int),
    decreases l.len() - j,
{
    let m = pad_mods(l);
    if j < l.len() {
        assert(m[j] == l[j]);
        assert(is_mod_vk(l[j]));
        lemma_first_zero_pad(l, j + 1);
    } else {
        assert(m[j] == 0);
    }
}

proof fn lemma_push_pad(c: ComboView, l: Seq<u16>, vk: u16)
    requires
        good_mod_list(l),
        c.mods == pad_mods(l),
        is_mod_vk(vk),
    ensures
        l.contains(vk) ==> spec_push_mod(c, vk) == Ok::<ComboView, ComboFault>(c),
        !l.contains(vk) && l.len() < 8 ==> spec_push_mod(c, vk) == Ok::<ComboView, ComboFault>(
            ComboView { mods: pad_mods(l.push(vk)), ..c },
        ) && good_mod_list(l.push(vk)),
        !l.contains(vk) && l.len() == 8 ==> spec_push_mod(c, vk) is Err,
{
    let m = pad_mods(l);
    if l.contains(vk) {
        let i = choose|i: int| 0 <= i < l.len() && l[i] == vk;
        assert(m[i] == vk);
    } else {
        assert(!m.contains(vk)) by {
            if m.contains(vk) {
                let i = choose|i: int| 0 <= i < m.len() && m[i] == vk;
                if i < l.len() {
                    assert(l[i] == vk);
                } else {
                    assert(m[i] == 0);
                }
            }
        }
        if l.len() < 8 {
            lemma_first_zero_pad(l, 0);
            assert(m.update(l.len() as int, vk) =~= pad_mods(l.push(vk)));
            let l2 = l.push(vk);
            assert forall|i: int, j: int| 0 <= i < j < l2.len() implies l2[i] != l2[j] by {
                if j == l.len() {
                    assert(l2[i] == l[i]);
                }
            }
            assert forall|i: int| 0 <= i < l2.len() implies is_mod_vk(#[trigger] l2[i]) by {
                if i < l.len() {
                    assert(l2[i] == l[i]);
                }
            }
        } else {
            assert forall|j: int| 0 <= j <= 8 implies first_zero_from(m, j) is None by {
                lemma_first_zero_none(l, j);
            }
        }
    }
}

proof fn lemma_first_zero_none(l: Seq<u16>, j: int)
    requires
        good_mod_list(l),
        l.len() == 8,
        0 <= j <= 8,
    ensures
        first_zero_from(pad_mods(l), j) is None,
    decreases 8 - j,
{
    if j < 8 {
        assert(pad_mods(l)[j] == l[j]);
        assert(is_mod_vk(l[j]));
        lemma_first_zero_none(l, j + 1);
    }
}

/// Every state of a successful parse has the reachable shape.
proof fn lemma_reachable(ps: Seq<Seq<char>>)
    ensures
        parse_pieces(ps) matches Ok(st) ==> reachable_state(st),
    decreases ps.len(),
{
    if ps.len() == 0 {
        let l = Seq::<u16>::empty();
        assert(pad_mods(l) =~= empty_view().mods);
        assert(good_mod_list(l));
    } else {
        lemma_reachable(ps.drop_last());
        match parse_pieces(ps.drop_last()) {
            Err(_) => {},
            Ok(st) => {
                let t = token_of(ps.last());
                if t.len() > 0 {
                    let l = choose|l: Seq<u16>| good_mod_list(l) && st.combo.mods == pad_mods(l);
                    lemma_key_vk_is_main(t);
                    match token_kind(t) {
                        TokenKind::Exact(vk) => {
                            assert(is_mod_vk(vk));
                            lemma_push_pad(st.combo, l, vk);
                            if !l.contains(vk) && l.len() < 8 {
                                let l2 = l.push(vk);
                                assert(good_mod_list(l2) && pad_mods(l2) == pad_mods(l2));
                            }
                        },
                        _ => {},
                    }
                }
            },
        }
    }
}

/// Any key name accepted as main key is displayed as a plain name that
/// parses back, as main key, to the same virtual-key code.
pub proof fn lemma_key_name_round_trip(t: Seq<char>)
    ensures
        key_vk(t) matches Some(v) ==> main_name_ok(v),
{
    lemma_key_vk_is_main(t);
    if key_vk(t) is Some {
        lemma_main_name(key_vk(t)->0);
    }
}

pub open spec fn mods_only(m: Seq<u16>) -> ComboView {
    ComboView { mods: m, any_ctrl: false, any_alt: false, any_shift: false, any_win: false, main_vk: 0 }
}

pub open spec fn names_of(l: Seq<u16>) -> Seq<Seq<char>> {
    l.map_values(|v: u16| vk_name(v))
}

proof fn lemma_parse_mod_names(l: Seq<u16>, j: int)
    requires
        good_mod_list(l),
        0 <= j <= l.len(),
    ensures
        parse_pieces(names_of(l).take(j)) == Ok::<ParseState, ComboFault>(
            ParseState { combo: mods_only(pad_mods(l.take(j))), main: None, tokens: j as nat },
        ),
    decreases j,
{
    if j == 0 {
        assert(names_of(l).take(0) =~= Seq::<Seq<char>>::empty());
        assert(pad_mods(l.take(0)) =~= empty_view().mods);
        assert(mods_only(pad_mods(l.take(0))) == empty_view());
    } else {
        lemma_parse_mod_names(l, j - 1);
        let ns = names_of(l).take(j);
        assert(ns.drop_last() =~= names_of(l).take(j - 1));
        let vk = l[j - 1];
        assert(ns.last() == vk_name(vk));
        lemma_mod_name(vk);
        lemma_plain_token(vk_name(vk));
        let prev = l.take(j - 1);
        assert(good_mod_list(prev)) by {
            assert forall|a: int, b: int| 0 <= a < b < prev.len() implies prev[a] != prev[b] by {
                assert(prev[a] == l[a] && prev[b] == l[b]);
            }
            assert forall|a: int| 0 <= a < prev.len() implies is_mod_vk(#[trigger] prev[a]) by {
                assert(prev[a] == l[a]);
            }
        }
        assert(!prev.contains(vk)) by {
            if prev.contains(vk) {
                let a = choose|a: int| 0 <= a < prev.len() && prev[a] == vk;
                assert(l[a] == l[j - 1]);
            }
        }
        lemma_push_pad(mods_only(pad_mods(prev)), prev, vk);
        assert(prev.push(vk) =~= l.take(j));
    }
}

proof fn lemma_parse_push(ps: Seq<Seq<char>>, p: Seq<char>)
    ensures
        parse_pieces(ps.push(p)) == match parse_pieces(ps) {
            Err(f) => Err(f),
            Ok(st) => if token_of(p).len() == 0 {
                Ok(st)
            } else {
                parse_step(st, token_of(p))
            },
        },
{
    assert(ps.push(p).drop_last() =~= ps);
}

pub open spec fn push_if(ps: Seq<Seq<char>>, b: bool, p: Seq<char>) -> Seq<Seq<char>> {
    if b {
        ps.push(p)
    } else {
        ps
    }
}

/// The parts that follow the side-specific modifiers in the display.
pub open spec fn tail_parts(p1: Seq<Seq<char>>, c: ComboView) -> Seq<Seq<char>> {
    push_if(
        push_if(
            push_if(push_if(push_if(p1, c.any_ctrl, "ctrl"@), c.any_alt, "alt"@), c.any_shift, "shift"@),
            c.any_win,
            "win"@,
        ),
        c.main_vk != 0,
        vk_name(c.main_vk),
    )
}

pub open spec fn count_if(b: bool) -> nat {
    if b {
        1
    } else {
        0
    }
}

proof fn lemma_parse_flag(ps: Seq<Seq<char>>, st: ParseState, b: bool, name: Seq<char>, k: TokenKind)
    requires
        parse_pieces(ps) == Ok::<ParseState, ComboFault>(st),
        plain_name(name),
        token_kind(name) == k,
        k == TokenKind::AnyCtrl || k == TokenKind::AnyAlt || k == TokenKind::AnyShift || k
            == TokenKind::AnyWin,
    ensures
        parse_pieces(push_if(ps, b, name)) == Ok::<ParseState, ComboFault>(
            if b {
                parse_step(st, name)->Ok_0
            } else {
                st
            },
        ),
        b ==> parse_step(st, name) is Ok,
{
    if b {
        lemma_parse_push(ps, name);
        lemma_plain_token(name);
    }
}

#[verifier::rlimit(40)]
proof fn lemma_parse_display(c: ComboView, st0: ParseState, l: Seq<u16>)
    requires
        reachable_state(st0),
        good_mod_list(l),
        st0.combo.mods == pad_mods(l),
        c.mods == st0.combo.mods,
        c.any_ctrl == st0.combo.any_ctrl,
        c.any_alt == st0.combo.any_alt,
        c.any_shift == st0.combo.any_shift,
        c.any_win == st0.combo.any_win,
        st0.main == if c.main_vk != 0 {
            Some(c.main_vk)
        } else {
            None
        },
    ensures
        ({
            let p = tail_parts(names_of(l), c);
            &&& parse_pieces(p) matches Ok(st) && st.combo == st0.combo && st.main == st0.main
                && st.tokens == p.len()
        }),
{
    lemma_parse_mod_names(l, l.len() as int);
    assert(l.take(l.len() as int) =~= l);
    let p1 = names_of(l);
    assert(p1.take(p1.len() as int) =~= p1);
    lemma_flag_names();
    let st1 = ParseState { combo: mods_only(c.mods), main: None, tokens: l.len() };
    assert(parse_pieces(p1) == Ok::<ParseState, ComboFault>(st1));
    lemma_parse_flag(p1, st1, c.any_ctrl, "ctrl"@, TokenKind::AnyCtrl);
    let p2 = push_if(p1, c.any_ctrl, "ctrl"@);
    let st2 = ParseState { combo: ComboView { any_ctrl: c.any_ctrl, ..st1.combo }, tokens: st1.tokens + count_if(c.any_ctrl), ..st1 };
    assert(parse_pieces(p2) == Ok::<ParseState, ComboFault>(st2));
    lemma_parse_flag(p2, st2, c.any_alt, "alt"@, TokenKind::AnyAlt);
    let p3 = push_if(p2, c.any_alt, "alt"@);
    let st3 = ParseState { combo: ComboView { any_alt: c.any_alt, ..st2.combo }, tokens: st2.tokens + count_if(c.any_alt), ..st2 };
    assert(parse_pieces(p3) == Ok::<ParseState, ComboFault>(st3));
    lemma_parse_flag(p3, st3, c.any_shift, "shift"@, TokenKind::AnyShift);
    let p4 = push_if(p3, c.any_shift, "shift"@);
    let st4 = ParseState { combo: ComboView { any_shift: c.any_shift, ..st3.combo }, tokens: st3.tokens + count_if(c.any_shift), ..st3 };
    assert(parse_pieces(p4) == Ok::<ParseState, ComboFault>(st4));
    lemma_parse_flag(p4, st4, c.any_win, "win"@, TokenKind::AnyWin);
    let p5 = push_if(p4, c.any_win, "win"@);
    let st5 = ParseState { combo: ComboView { any_win: c.any_win, ..st4.combo }, tokens: st4.tokens + count_if(c.any_win), ..st4 };
    assert(parse_pieces(p5) == Ok::<ParseState, ComboFault>(st5));
    assert(p5.len() == st5.tokens);
    if c.main_vk != 0 {
        assert(is_main_vk(c.main_vk));
        lemma_main_name(c.main_vk);
        lemma_parse_push(p5, vk_name(c.main_vk));
        lemma_plain_token(vk_name(c.main_vk));
    }
    assert(st5.combo =~= st0.combo);
}

/// The display text of every combo that parsing accepts parses back to the
/// same combo (so a logged or displayed combo can be entered again).
#[verifier::rlimit(40)]
pub proof fn lemma_display_round_trip(text: Seq<char>)
    ensures
        spec_parse_combo(text) matches Ok(c) ==> spec_parse_combo(combo_text(c)) == Ok::<
            ComboView,
            ComboFault,
        >(c),
{
    let ps = split_on(text, '+');
    lemma_reachable(ps);
    lemma_parsed_combo_is_safe(text);
    match parse_pieces(ps) {
        Err(_) => {},
        Ok(st0) => {
            match parse_finish(st0) {
                Err(_) => {},
                Ok(c) => {
                    let l = choose|l: Seq<u16>| good_mod_list(l) && st0.combo.mods == pad_mods(l);
                    assert forall|i: int| 0 <= i < l.len() implies #[trigger] l[i] != 0 by {
                        assert(is_mod_vk(l[i]));
                    }
                    lemma_count_nonzero_pad(l, (8 - l.len()) as nat);
                    lemma_parse_display(c, st0, l);
                    let p = tail_parts(names_of(l), c);
                    assert(display_parts(c) =~= p);
                    let st = parse_pieces(p)->Ok_0;
                    assert(st.tokens > 0);
                    assert(parse_finish(st) == parse_finish(st0));
                    lemma_flag_names();
                    assert forall|i: int| 0 <= i < p.len() implies no_plus(#[trigger] p[i]) by {
                        if i < l.len() {
                            assert(p[i] == vk_name(l[i]));
                            lemma_mod_name(l[i]);
                            lemma_plain_token(vk_name(l[i]));
                        } else if c.main_vk != 0 && i == p.len() - 1 {
                            lemma_main_name(c.main_vk);
                            lemma_plain_token(p[i]);
                        } else {
                            lemma_plain_token(p[i]);
                        }
                    }
                    lemma_split_join(p);
                },
            }
        },
    }
}


/// Every bare function key is accepted on its own: for each `n` in `1..=24`
/// the text `f<n>` parses to the combo whose main key is F`n` (VK 0x6F + n)
/// and that requires no modifier.
pub proof fn lemma_bare_fkey_accepted(n: nat)
    requires
        1 <= n <= 24,
    ensures
        spec_parse_combo("f"@ + decimal_text(n)) == Ok::<ComboView, ComboFault>(
            ComboView { main_vk: (0x6F + n) as u16, ..empty_view() },
        ),
{
    let v = (0x6F + n) as u16;
    assert(is_fkey_vk(v));
    lemma_fkey_main(v);
    let name = vk_name(v);
    assert(name == "f"@ + decimal_text(n));
    lemma_plain_token(name);
    let ps = seq![name];
    assert forall|i: int| 0 <= i < ps.len() implies no_plus(#[trigger] ps[i]) by {}
    lemma_split_join(ps);
    assert(join_with(ps, '+') == name);
    assert(split_on(name, '+') == ps);
    assert(ps.drop_last() =~= Seq::<Seq<char>>::empty());
    assert(parse_pieces(ps.drop_last()) == Ok::<ParseState, ComboFault>(
        ParseState { combo: empty_view(), main: None, tokens: 0 },
    ));
    assert(token_of(ps.last()) == name);
    assert(parse_pieces(ps) == Ok::<ParseState, ComboFault>(
        ParseState { combo: empty_view(), main: Some(v), tokens: 1 },
    ));
    lemma_count_nonzero_pad(Seq::<u16>::empty(), 8);
    assert(Seq::<u16>::empty() + zeros(8) =~= empty_view().mods);
    assert(mod_count(ComboView { main_vk: v, ..empty_view() }) == 0);
}

/// The combo that the tokens read so far describe: their modifiers, and
/// the main key if one was named.
pub open spec fn combo_of_tokens(st: ParseState) -> ComboView {
    ComboView {
        main_vk: match st.main {
            Some(v) => v,
            None => 0,
        },
        ..st.combo
    }
}

/// The safety rules are the only reason to refuse a text whose pieces all
/// read without fault: when at least one token was read and the combo they
/// describe obeys the rules, that combo is the result.
pub proof fn lemma_safe_combos_accepted(text: Seq<char>)
    ensures
        parse_pieces(split_on(text, '+')) is Ok && parse_pieces(split_on(text, '+'))->Ok_0.tokens
            > 0 && combo_is_safe(combo_of_tokens(parse_pieces(split_on(text, '+'))->Ok_0))
            ==> spec_parse_combo(text) == Ok::<ComboView, ComboFault>(
            combo_of_tokens(parse_pieces(split_on(text, '+'))->Ok_0),
        ),
{
    lemma_reachable(split_on(text, '+'));
}

} // verus!
