//! Configurable global hotkey: the combo grammar (`lctrl+lshift`,
//! `ctrl+shift+f8`, ...), its safety rules, and the edge-triggered engine that
//! turns key events into session starts and ends.

use vstd::prelude::*;
use crate::state_machine::{spec_activate, spec_deactivate, TimeWindowStateMachine};
use crate::text::{
    is_white_space, trim_end, trim_start, ascii_lowercase, char_seqs, chars_eq_str, chars_of, join_with, lowercase_chars, push_char,
    push_chars, split_chars,
    split_on, trim, trim_chars,
};

verus! {

/// Fallback combo when the configuration is missing or unparseable.
pub const DEFAULT_HOTKEY: &'static str = "lctrl+lshift";

/// Win32 virtual-key codes of the side-specific modifier keys.
pub const VK_LSHIFT: u16 = 0xA0;
pub const VK_RSHIFT: u16 = 0xA1;
pub const VK_LCONTROL: u16 = 0xA2;
pub const VK_RCONTROL: u16 = 0xA3;
pub const VK_LMENU: u16 = 0xA4;
pub const VK_RMENU: u16 = 0xA5;
pub const VK_LWIN: u16 = 0x5B;
pub const VK_RWIN: u16 = 0x5C;

// ─────────────────────────── trigger mode ───────────────────────────

#[derive(PartialEq, Eq, Clone, Copy, Debug, Structural)]
pub enum TriggerMode {
    Toggle,
    PushToTalk,
}

/// The mode that the configuration text `s` selects.
pub open spec fn spec_mode_of(s: Seq<char>) -> TriggerMode {
    if trim(s) == "push_to_talk"@ {
        TriggerMode::PushToTalk
    } else {
        TriggerMode::Toggle
    }
}

/// The configuration text of a mode.
pub open spec fn mode_name(m: TriggerMode) -> Seq<char> {
    match m {
        TriggerMode::Toggle => "toggle"@,
        TriggerMode::PushToTalk => "push_to_talk"@,
    }
}

impl TriggerMode {
    /// Parse the `mode` config value; anything but `push_to_talk` is Toggle.
    pub fn parse(s: &str) -> (m: Self)
        ensures
            m == spec_mode_of(s@),
    {
        let t = trim_chars(&chars_of(s));
        if chars_eq_str(&t, "push_to_talk") {
            TriggerMode::PushToTalk
        } else {
            TriggerMode::Toggle
        }
    }

    pub fn as_str(self) -> (s: &'static str)
        ensures
            s@ == mode_name(self),
    {
        match self {
            TriggerMode::Toggle => "toggle",
            TriggerMode::PushToTalk => "push_to_talk",
        }
    }
}

// ─────────────────────────── combo model ───────────────────────────

/// A parsed key combination.
///
/// `exact_mods` holds side-specific modifier keys (filled from the front,
/// `0` = free slot); the `any_*` flags accept either side. `main_vk == 0`
/// means a modifier-only combo.
#[derive(Clone, Copy, PartialEq, Eq, Debug)]
pub struct Combo {
    pub exact_mods: [u16; 8],
    pub any_ctrl: bool,
    pub any_alt: bool,
    pub any_shift: bool,
    pub any_win: bool,
    pub main_vk: u16,
}

/// Mathematical model of a combo.
pub struct ComboView {
    pub mods: Seq<u16>,
    pub any_ctrl: bool,
    pub any_alt: bool,
    pub any_shift: bool,
    pub any_win: bool,
    pub main_vk: u16,
}

impl View for Combo {
    type V = ComboView;

    open spec fn view(&self) -> ComboView {
        ComboView {
            mods: self.exact_mods@,
            any_ctrl: self.any_ctrl,
            any_alt: self.any_alt,
            any_shift: self.any_shift,
            any_win: self.any_win,
            main_vk: self.main_vk,
        }
    }
}

/// The inert combo: no modifier, no main key.
pub open spec fn empty_view() -> ComboView {
    ComboView {
        mods: Seq::new(8, |i: int| 0u16),
        any_ctrl: false,
        any_alt: false,
        any_shift: false,
        any_win: false,
        main_vk: 0,
    }
}

/// Number of non-zero entries of `s`.
pub open spec fn count_nonzero(s: Seq<u16>) -> nat
    decreases s.len(),
{
    if s.len() == 0 {
        0
    } else {
        count_nonzero(s.drop_last()) + if s.last() != 0 {
            1nat
        } else {
            0nat
        }
    }
}

pub open spec fn flag(b: bool) -> nat {
    if b {
        1
    } else {
        0
    }
}

/// How many modifiers the combo requires.
pub open spec fn mod_count(c: ComboView) -> nat {
    count_nonzero(c.mods) + flag(c.any_ctrl) + flag(c.any_alt) + flag(c.any_shift) + flag(
        c.any_win,
    )
}

/// Index of the first zero entry of `s` at or after `i`.
pub open spec fn first_zero_from(s: Seq<u16>, i: int) -> Option<int>
    decreases s.len() - i,
{
    if i < 0 || i >= s.len() {
        None
    } else if s[i] == 0 {
        Some(i)
    } else {
        first_zero_from(s, i + 1)
    }
}

/// Why a combo text is refused.
pub enum ComboFault {
    TooManyModifiers,
    MouseButton,
    ExtraMainKey(Seq<char>),
    UnknownKey(Seq<char>),
    Empty,
    BareMainKey,
    TooFewModifiers,
}

/// The message (shown in the plugin log) for each refusal.
pub open spec fn fault_message(f: ComboFault) -> Seq<char> {
    match f {
        ComboFault::TooManyModifiers => "修饰键过多（最多 8 个）"@,
        ComboFault::MouseButton => "鼠标侧键暂不支持：本插件仅监听键盘"@,
        ComboFault::ExtraMainKey(t) => "快捷键只能有一个主键（多余 token: "@ + t + "）"@,
        ComboFault::UnknownKey(t) => "无法识别的键名: "@ + t,
        ComboFault::Empty => "快捷键不能为空"@,
        ComboFault::BareMainKey => "字母/数字/普通键作主键时必须搭配至少一个修饰键（ctrl/alt/shift/win）；无修饰键时仅支持 F1-F24"@,
        ComboFault::TooFewModifiers => "纯修饰键组合至少需要两个修饰键（如 lctrl+lshift），避免误触"@,
    }
}

/// Add the side-specific modifier `vk` (idempotent; 8 slots at most).
pub open spec fn spec_push_mod(c: ComboView, vk: u16) -> Result<ComboView, ComboFault> {
    if c.mods.contains(vk) {
        Ok(c)
    } else {
        match first_zero_from(c.mods, 0) {
            None => Err(ComboFault::TooManyModifiers),
            Some(i) => Ok(ComboView { mods: c.mods.update(i, vk), ..c }),
        }
    }
}

// ─────────────────────────── token grammar ───────────────────────────

/// What a (trimmed, lowercased) token of a combo text names.
#[derive(Clone, Copy, PartialEq, Eq, Debug, Structural)]
pub enum TokenKind {
    AnyCtrl,
    AnyAlt,
    AnyShift,
    AnyWin,
    Exact(u16),
    Mouse,
    Other,
}

pub open spec fn token_kind(t: Seq<char>) -> TokenKind {
    if t == "ctrl"@ || t == "control"@ {
        TokenKind::AnyCtrl
    } else if t == "lctrl"@ || t == "leftctrl"@ {
        TokenKind::Exact(VK_LCONTROL)
    } else if t == "rctrl"@ || t == "rightctrl"@ {
        TokenKind::Exact(VK_RCONTROL)
    } else if t == "alt"@ || t == "option"@ {
        TokenKind::AnyAlt
    } else if t == "lalt"@ || t == "leftalt"@ {
        TokenKind::Exact(VK_LMENU)
    } else if t == "ralt"@ || t == "rightalt"@ {
        TokenKind::Exact(VK_RMENU)
    } else if t == "shift"@ {
        TokenKind::AnyShift
    } else if t == "lshift"@ || t == "leftshift"@ {
        TokenKind::Exact(VK_LSHIFT)
    } else if t == "rshift"@ || t == "rightshift"@ {
        TokenKind::Exact(VK_RSHIFT)
    } else if t == "win"@ || t == "super"@ || t == "meta"@ || t == "cmd"@ || t == "command"@ {
        TokenKind::AnyWin
    } else if t == "lwin"@ || t == "leftwin"@ {
        TokenKind::Exact(VK_LWIN)
    } else if t == "rwin"@ || t == "rightwin"@ {
        TokenKind::Exact(VK_RWIN)
    } else if t == "mouse4"@ || t == "xbutton1"@ || t == "x1"@ || t == "mouse5"@ || t
        == "xbutton2"@ || t == "x2"@ {
        TokenKind::Mouse
    } else {
        TokenKind::Other
    }
}

pub open spec fn is_digit(c: char) -> bool {
    '0' <= c && c <= '9'
}

/// Decimal value of the digit string `s`.
pub open spec fn decimal_value(s: Seq<char>) -> nat
    decreases s.len(),
{
    if s.len() == 0 {
        0
    } else {
        decimal_value(s.drop_last()) * 10 + ((s.last() as u32 - 48) as nat)
    }
}

/// The number part of a name that starts with `f`: what follows the `f`,
/// without one leading `+` (`u16::from_str` accepts a leading plus sign).
pub open spec fn fkey_digits(t: Seq<char>) -> Seq<char> {
    if t.len() >= 2 && t[1] == '+' {
        t.subrange(2, t.len() as int)
    } else {
        t.drop_first()
    }
}

/// `Some(n)` for the function-key names `f1` .. `f24`: an `f`, then a
/// decimal number as `u16::from_str` reads it (an optional `+`, then digits,
/// leading zeros allowed), whose value lies in `1..=24`.
pub open spec fn fkey_number(t: Seq<char>) -> Option<nat> {
    let d = fkey_digits(t);
    if t.len() >= 2 && t[0] == 'f' && d.len() >= 1 && (forall|k: int|
        0 <= k < d.len() ==> is_digit(#[trigger] d[k])) && 1 <= decimal_value(d) <= 24 {
        Some(decimal_value(d))
    } else {
        None
    }
}

/// Names of the ordinary (non-letter, non-digit, non-F) main keys.
pub open spec fn named_key_vk(t: Seq<char>) -> Option<u16> {
    if t == "space"@ {
        Some(0x20u16)
    } else if t == "tab"@ {
        Some(0x09u16)
    } else if t == "enter"@ || t == "return"@ {
        Some(0x0Du16)
    } else if t == "backspace"@ {
        Some(0x08u16)
    } else if t == "escape"@ || t == "esc"@ {
        Some(0x1Bu16)
    } else if t == "pause"@ {
        Some(0x13u16)
    } else if t == "insert"@ {
        Some(0x2Du16)
    } else if t == "delete"@ || t == "del"@ {
        Some(0x2Eu16)
    } else if t == "home"@ {
        Some(0x24u16)
    } else if t == "end"@ {
        Some(0x23u16)
    } else if t == "pageup"@ {
        Some(0x21u16)
    } else if t == "pagedown"@ {
        Some(0x22u16)
    } else if t == "up"@ {
        Some(0x26u16)
    } else if t == "left"@ {
        Some(0x25u16)
    } else if t == "down"@ {
        Some(0x28u16)
    } else if t == "right"@ {
        Some(0x27u16)
    } else if t == "minus"@ {
        Some(0xBDu16)
    } else if t == "equal"@ || t == "equals"@ {
        Some(0xBBu16)
    } else if t == "bracketleft"@ || t == "leftbracket"@ {
        Some(0xDBu16)
    } else if t == "bracketright"@ || t == "rightbracket"@ {
        Some(0xDDu16)
    } else if t == "backslash"@ {
        Some(0xDCu16)
    } else if t == "semicolon"@ {
        Some(0xBAu16)
    } else if t == "quote"@ || t == "apostrophe"@ {
        Some(0xDEu16)
    } else if t == "comma"@ {
        Some(0xBCu16)
    } else if t == "period"@ || t == "dot"@ {
        Some(0xBEu16)
    } else if t == "slash"@ {
        Some(0xBFu16)
    } else if t == "backquote"@ || t == "grave"@ {
        Some(0xC0u16)
    } else {
        None
    }
}

/// Key name → Win32 virtual-key code (US-layout semantics).
pub open spec fn key_vk(t: Seq<char>) -> Option<u16> {
    if t.len() == 1 {
        if 'a' <= t[0] && t[0] <= 'z' {
            Some((t[0] as u32 - 0x20) as u16)
        } else if is_digit(t[0]) {
            Some(t[0] as u32 as u16)
        } else {
            None
        }
    } else if fkey_number(t) is Some {
        Some((0x6F + fkey_number(t)->0) as u16)
    } else {
        named_key_vk(t)
    }
}

/// Classify one token of a combo text.
pub fn classify_token(t: &Vec<char>) -> (k: TokenKind)
    ensures
        k == token_kind(t@),
{
    if chars_eq_str(t, "ctrl") || chars_eq_str(t, "control") {
        TokenKind::AnyCtrl
    } else if chars_eq_str(t, "lctrl") || chars_eq_str(t, "leftctrl") {
        TokenKind::Exact(VK_LCONTROL)
    } else if chars_eq_str(t, "rctrl") || chars_eq_str(t, "rightctrl") {
        TokenKind::Exact(VK_RCONTROL)
    } else if chars_eq_str(t, "alt") || chars_eq_str(t, "option") {
        TokenKind::AnyAlt
    } else if chars_eq_str(t, "lalt") || chars_eq_str(t, "leftalt") {
        TokenKind::Exact(VK_LMENU)
    } else if chars_eq_str(t, "ralt") || chars_eq_str(t, "rightalt") {
        TokenKind::Exact(VK_RMENU)
    } else if chars_eq_str(t, "shift") {
        TokenKind::AnyShift
    } else if chars_eq_str(t, "lshift") || chars_eq_str(t, "leftshift") {
        TokenKind::Exact(VK_LSHIFT)
    } else if chars_eq_str(t, "rshift") || chars_eq_str(t, "rightshift") {
        TokenKind::Exact(VK_RSHIFT)
    } else if chars_eq_str(t, "win") || chars_eq_str(t, "super") || chars_eq_str(t, "meta")
        || chars_eq_str(t, "cmd") || chars_eq_str(t, "command") {
        TokenKind::AnyWin
    } else if chars_eq_str(t, "lwin") || chars_eq_str(t, "leftwin") {
        TokenKind::Exact(VK_LWIN)
    } else if chars_eq_str(t, "rwin") || chars_eq_str(t, "rightwin") {
        TokenKind::Exact(VK_RWIN)
    } else if chars_eq_str(t, "mouse4") || chars_eq_str(t, "xbutton1") || chars_eq_str(t, "x1")
        || chars_eq_str(t, "mouse5") || chars_eq_str(t, "xbutton2") || chars_eq_str(t, "x2") {
        TokenKind::Mouse
    } else {
        TokenKind::Other
    }
}

/// `Some(n)` when `t` names the function key F`n`.
fn fkey_of(t: &Vec<char>) -> (r: Option<u16>)
    ensures
        r matches Some(n) ==> fkey_number(t@) == Some(n as nat),
        r is None ==> fkey_number(t@) is None,
{
    let n = t.len();
    if n < 2 || t[0] != 'f' {
        return None;
    }
    let start: usize = if t[1] == '+' {
        2
    } else {
        1
    };
    if start >= n {
        return None;
    }
    let ghost d = fkey_digits(t@);
    assert(d =~= t@.subrange(start as int, n as int));
    let mut val: u16 = 0;
    let mut k: usize = start;
    while k < n
        invariant
            2 <= n == t@.len(),
            t@[0] == 'f',
            1 <= start <= k <= n,
            d == fkey_digits(t@),
            d =~= t@.subrange(start as int, n as int),
            forall|j: int| start <= j < k ==> is_digit(#[trigger] t@[j]),
            val as nat == if decimal_value(t@.subrange(start as int, k as int)) < 1000 {
                decimal_value(t@.subrange(start as int, k as int))
            } else {
                1000
            },
        decreases n - k,
    {
        let c = t[k];
        if !('0' <= c && c <= '9') {
            assert(d[k - start] == c);
            assert(!is_digit(d[k - start]));
            return None;
        }
        proof {
            assert(t@.subrange(start as int, k + 1).drop_last() == t@.subrange(
                start as int,
                k as int,
            ));
            assert(t@.subrange(start as int, k + 1).last() == c);
        }
        let d: u16 = (c as u32 - 48) as u16;
        let next: u16 = val * 10 + d;
        val = if next < 1000 {
            next
        } else {
            1000
        };
        k = k + 1;
    }
    assert(t@.subrange(start as int, n as int) == d);
    assert forall|j: int| 0 <= j < d.len() implies is_digit(#[trigger] d[j]) by {
        assert(d[j] == t@[start + j]);
    }
    if 1 <= val && val <= 24 {
        Some(val)
    } else {
        None
    }
}

/// Key name → Win32 virtual-key code.
pub fn key_to_vk(t: &Vec<char>) -> (r: Option<u16>)
    ensures
        r == key_vk(t@),
{
    if t.len() == 1 {
        let c = t[0];
        return if 'a' <= c && c <= 'z' {
            Some((c as u32 - 0x20) as u16)
        } else if '0' <= c && c <= '9' {
            Some(c as u32 as u16)
        } else {
            None
        };
    }
    match fkey_of(t) {
        Some(n) => {
            return Some(0x6F + n);
        },
        None => {},
    }
    if chars_eq_str(t, "space") {
        Some(0x20)
    } else if chars_eq_str(t, "tab") {
        Some(0x09)
    } else if chars_eq_str(t, "enter") || chars_eq_str(t, "return") {
        Some(0x0D)
    } else if chars_eq_str(t, "backspace") {
        Some(0x08)
    } else if chars_eq_str(t, "escape") || chars_eq_str(t, "esc") {
        Some(0x1B)
    } else if chars_eq_str(t, "pause") {
        Some(0x13)
    } else if chars_eq_str(t, "insert") {
        Some(0x2D)
    } else if chars_eq_str(t, "delete") || chars_eq_str(t, "del") {
        Some(0x2E)
    } else if chars_eq_str(t, "home") {
        Some(0x24)
    } else if chars_eq_str(t, "end") {
        Some(0x23)
    } else if chars_eq_str(t, "pageup") {
        Some(0x21)
    } else if chars_eq_str(t, "pagedown") {
        Some(0x22)
    } else if chars_eq_str(t, "up") {
        Some(0x26)
    } else if chars_eq_str(t, "left") {
        Some(0x25)
    } else if chars_eq_str(t, "down") {
        Some(0x28)
    } else if chars_eq_str(t, "right") {
        Some(0x27)
    } else if chars_eq_str(t, "minus") {
        Some(0xBD)
    } else if chars_eq_str(t, "equal") || chars_eq_str(t, "equals") {
        Some(0xBB)
    } else if chars_eq_str(t, "bracketleft") || chars_eq_str(t, "leftbracket") {
        Some(0xDB)
    } else if chars_eq_str(t, "bracketright") || chars_eq_str(t, "rightbracket") {
        Some(0xDD)
    } else if chars_eq_str(t, "backslash") {
        Some(0xDC)
    } else if chars_eq_str(t, "semicolon") {
        Some(0xBA)
    } else if chars_eq_str(t, "quote") || chars_eq_str(t, "apostrophe") {
        Some(0xDE)
    } else if chars_eq_str(t, "comma") {
        Some(0xBC)
    } else if chars_eq_str(t, "period") || chars_eq_str(t, "dot") {
        Some(0xBE)
    } else if chars_eq_str(t, "slash") {
        Some(0xBF)
    } else if chars_eq_str(t, "backquote") || chars_eq_str(t, "grave") {
        Some(0xC0)
    } else {
        None
    }
}

// ─────────────────────────── combo parsing ───────────────────────────

/// Parser state after some tokens: the combo so far, the main key seen (if
/// any) and the number of non-empty tokens.
pub struct ParseState {
    pub combo: ComboView,
    pub main: Option<u16>,
    pub tokens: nat,
}

/// A piece between two `+` becomes a token by trimming and lowercasing.
pub open spec fn token_of(piece: Seq<char>) -> Seq<char> {
    ascii_lowercase(trim(piece))
}

/// Effect of one non-empty token on the parser state.
pub open spec fn parse_step(st: ParseState, t: Seq<char>) -> Result<ParseState, ComboFault> {
    let st1 = ParseState { tokens: st.tokens + 1, ..st };
    match token_kind(t) {
        TokenKind::AnyCtrl => Ok(ParseState { combo: ComboView { any_ctrl: true, ..st1.combo }, ..st1 }),
        TokenKind::AnyAlt => Ok(ParseState { combo: ComboView { any_alt: true, ..st1.combo }, ..st1 }),
        TokenKind::AnyShift => Ok(ParseState { combo: ComboView { any_shift: true, ..st1.combo }, ..st1 }),
        TokenKind::AnyWin => Ok(ParseState { combo: ComboView { any_win: true, ..st1.combo }, ..st1 }),
        TokenKind::Exact(vk) => match spec_push_mod(st1.combo, vk) {
            Ok(c) => Ok(ParseState { combo: c, ..st1 }),
            Err(f) => Err(f),
        },
        TokenKind::Mouse => Err(ComboFault::MouseButton),
        TokenKind::Other => if st.main is Some {
            Err(ComboFault::ExtraMainKey(t))
        } else {
            match key_vk(t) {
                Some(vk) => Ok(ParseState { main: Some(vk), ..st1 }),
                None => Err(ComboFault::UnknownKey(t)),
            }
        },
    }
}

pub open spec fn initial_parse_state() -> ParseState {
    ParseState { combo: empty_view(), main: None, tokens: 0 }
}

/// Run the parser over the `+`-separated pieces, stopping at the first fault.
pub open spec fn parse_pieces(pieces: Seq<Seq<char>>) -> Result<ParseState, ComboFault>
    decreases pieces.len(),
{
    if pieces.len() == 0 {
        Ok(initial_parse_state())
    } else {
        match parse_pieces(pieces.drop_last()) {
            Err(f) => Err(f),
            Ok(st) => {
                let t = token_of(pieces.last());
                if t.len() == 0 {
                    Ok(st)
                } else {
                    parse_step(st, t)
                }
            },
        }
    }
}

/// Is `vk` one of F1 .. F24?
pub open spec fn is_fkey_vk(vk: u16) -> bool {
    0x70 <= vk <= 0x87
}

/// The safety rules applied once every token is read.
pub open spec fn parse_finish(st: ParseState) -> Result<ComboView, ComboFault> {
    if st.tokens == 0 {
        Err(ComboFault::Empty)
    } else {
        match st.main {
            Some(vk) => {
                let c = ComboView { main_vk: vk, ..st.combo };
                if mod_count(c) == 0 && !is_fkey_vk(vk) {
                    Err(ComboFault::BareMainKey)
                } else {
                    Ok(c)
                }
            },
            None => if mod_count(st.combo) < 2 {
                Err(ComboFault::TooFewModifiers)
            } else {
                Ok(st.combo)
            },
        }
    }
}

/// The combo that `text` denotes, or why it is refused.
pub open spec fn spec_parse_combo(text: Seq<char>) -> Result<ComboView, ComboFault> {
    match parse_pieces(split_on(text, '+')) {
        Err(f) => Err(f),
        Ok(st) => parse_finish(st),
    }
}

pub fn empty_combo() -> (c: Combo)
    ensures
        c@ == empty_view(),
{
    let c = Combo {
        exact_mods: [0u16; 8],
        any_ctrl: false,
        any_alt: false,
        any_shift: false,
        any_win: false,
        main_vk: 0,
    };
    assert(c.exact_mods@ =~= empty_view().mods);
    c
}

proof fn lemma_count_nonzero_take(s: Seq<u16>, i: int)
    requires
        0 <= i < s.len(),
    ensures
        count_nonzero(s.take(i + 1)) == count_nonzero(s.take(i)) + if s[i] != 0 {
            1nat
        } else {
            0nat
        },
{
    assert(s.take(i + 1).drop_last() == s.take(i));
}

impl Combo {
    /// Add a side-specific modifier; a repeated one is ignored.
    pub fn push_mod(&mut self, vk: u16) -> (r: Result<(), String>)
        ensures
            match spec_push_mod(old(self)@, vk) {
                Ok(c) => r is Ok && final(self)@ == c,
                Err(f) => r matches Err(m) && m@ == fault_message(f) && *final(self) == *old(self),
            },
    {
        let mut i: usize = 0;
        while i < 8
            invariant
                i <= 8,
                self.exact_mods@.len() == 8,
                *self == *old(self),
                forall|j: int| 0 <= j < i ==> self.exact_mods@[j] != vk,
            decreases 8 - i,
        {
            if self.exact_mods[i] == vk {
                assert(self.exact_mods@.contains(vk) && self.exact_mods@[i as int] == vk);
                return Ok(());
            }
            i = i + 1;
        }
        assert(!self.exact_mods@.contains(vk));
        let mut z: usize = 0;
        while z < 8
            invariant
                z <= 8,
                self.exact_mods@.len() == 8,
                *self == *old(self),
                !self.exact_mods@.contains(vk),
                first_zero_from(self.exact_mods@, 0) == first_zero_from(self.exact_mods@, z as int),
            decreases 8 - z,
        {
            if self.exact_mods[z] == 0 {
                self.exact_mods[z] = vk;
                assert(self.exact_mods@ =~= old(self).exact_mods@.update(z as int, vk));
                return Ok(());
            }
            z = z + 1;
        }
        Err(String::from_str("修饰键过多（最多 8 个）"))
    }

    /// How many modifiers the combo requires.
    pub fn mod_count(&self) -> (n: usize)
        ensures
            n == mod_count(self@),
    {
        let mut n: usize = 0;
        let mut i: usize = 0;
        while i < 8
            invariant
                i <= 8,
                self.exact_mods@.len() == 8,
                n == count_nonzero(self.exact_mods@.take(i as int)),
                n <= i,
            decreases 8 - i,
        {
            proof {
                lemma_count_nonzero_take(self.exact_mods@, i as int);
            }
            if self.exact_mods[i] != 0 {
                n = n + 1;
            }
            i = i + 1;
        }
        assert(self.exact_mods@.take(8) == self.exact_mods@);
        n + (if self.any_ctrl { 1usize } else { 0 }) + (if self.any_alt { 1usize } else { 0 }) + (
        if self.any_shift { 1usize } else { 0 }) + (if self.any_win { 1usize } else { 0 })
    }

    /// Same combo as `other`?
    pub fn same_as(&self, other: &Combo) -> (b: bool)
        ensures
            b == (self@ == other@),
    {
        let mut i: usize = 0;
        while i < 8
            invariant
                i <= 8,
                self.exact_mods@.len() == 8,
                other.exact_mods@.len() == 8,
                forall|j: int| 0 <= j < i ==> self.exact_mods@[j] == other.exact_mods@[j],
            decreases 8 - i,
        {
            if self.exact_mods[i] != other.exact_mods[i] {
                return false;
            }
            i = i + 1;
        }
        assert(self.exact_mods@ =~= other.exact_mods@);
        self.any_ctrl == other.any_ctrl && self.any_alt == other.any_alt && self.any_shift
            == other.any_shift && self.any_win == other.any_win && self.main_vk == other.main_vk
    }

    /// Is this the inert combo (never triggers)?
    pub fn is_empty(&self) -> (b: bool)
        ensures
            b == (self@ == empty_view()),
    {
        let e = empty_combo();
        self.same_as(&e)
    }
}

/// The log message for a fault.
pub fn fault_text(f: ComboFaultKind, t: &Vec<char>) -> (m: String)
    ensures
        m@ == fault_message(f.with_token(t@)),
{
    match f {
        ComboFaultKind::TooManyModifiers => String::from_str("修饰键过多（最多 8 个）"),
        ComboFaultKind::MouseButton => String::from_str("鼠标侧键暂不支持：本插件仅监听键盘"),
        ComboFaultKind::ExtraMainKey => {
            let mut m = String::from_str("快捷键只能有一个主键（多余 token: ");
            push_chars(&mut m, t);
            m.append("）");
            m
        },
        ComboFaultKind::UnknownKey => {
            let mut m = String::from_str("无法识别的键名: ");
            push_chars(&mut m, t);
            m
        },
        ComboFaultKind::Empty => String::from_str("快捷键不能为空"),
        ComboFaultKind::BareMainKey => String::from_str(
            "字母/数字/普通键作主键时必须搭配至少一个修饰键（ctrl/alt/shift/win）；无修饰键时仅支持 F1-F24",
        ),
        ComboFaultKind::TooFewModifiers => String::from_str(
            "纯修饰键组合至少需要两个修饰键（如 lctrl+lshift），避免误触",
        ),
    }
}

/// The refusal kinds without their token (executable mirror of `ComboFault`).
#[derive(Clone, Copy, PartialEq, Eq, Debug)]
pub enum ComboFaultKind {
    TooManyModifiers,
    MouseButton,
    ExtraMainKey,
    UnknownKey,
    Empty,
    BareMainKey,
    TooFewModifiers,
}

impl ComboFaultKind {
    pub open spec fn with_token(self, t: Seq<char>) -> ComboFault {
        match self {
            ComboFaultKind::TooManyModifiers => ComboFault::TooManyModifiers,
            ComboFaultKind::MouseButton => ComboFault::MouseButton,
            ComboFaultKind::ExtraMainKey => ComboFault::ExtraMainKey(t),
            ComboFaultKind::UnknownKey => ComboFault::UnknownKey(t),
            ComboFaultKind::Empty => ComboFault::Empty,
            ComboFaultKind::BareMainKey => ComboFault::BareMainKey,
            ComboFaultKind::TooFewModifiers => ComboFault::TooFewModifiers,
        }
    }
}

/// Once the parser has faulted, the remaining pieces do not matter.
pub proof fn lemma_fault_persists(ps: Seq<Seq<char>>, j: int)
    requires
        0 <= j <= ps.len(),
        parse_pieces(ps.take(j)) is Err,
    ensures
        parse_pieces(ps) == parse_pieces(ps.take(j)),
    decreases ps.len() - j,
{
    if j == ps.len() {
        assert(ps.take(j) == ps);
    } else {
        assert(ps.drop_last().take(j) == ps.take(j));
        lemma_fault_persists(ps.drop_last(), j);
    }
}

/// Parse a combo string like `lctrl+lshift`, `ctrl+shift+f8` or `alt+space`.
///
/// Safety rules: a bare letter/digit/ordinary main key is refused (it would
/// hijack normal typing), bare main keys are limited to F1–F24, and
/// modifier-only combos need at least two modifiers.
pub fn parse_combo(text: &str) -> (res: Result<Combo, String>)
    ensures
        match spec_parse_combo(text@) {
            Ok(c) => res matches Ok(r) && r@ == c,
            Err(f) => res matches Err(m) && m@ == fault_message(f),
        },
{
    let chars = chars_of(text);
    let pieces = split_chars(&chars, '+');
    let mut combo = empty_combo();
    let mut main: Option<u16> = None;
    let mut tokens: usize = 0;
    let mut i: usize = 0;
    let ghost ps = char_seqs(pieces@);
    let empty_tok: Vec<char> = Vec::new();
    while i < pieces.len()
        invariant
            i <= pieces@.len(),
            ps == char_seqs(pieces@),
            ps == split_on(text@, '+'),
            tokens <= i,
            parse_pieces(ps.take(i as int)) == Ok::<ParseState, ComboFault>(
                ParseState { combo: combo@, main, tokens: tokens as nat },
            ),
        decreases pieces.len() - i,
    {
        proof {
            assert(ps.take(i + 1).drop_last() == ps.take(i as int));
            assert(ps.take(i + 1).last() == pieces@[i as int]@);
        }
        let tok = lowercase_chars(&trim_chars(&pieces[i]));
        if tok.len() > 0 {
            tokens = tokens + 1;
            match classify_token(&tok) {
                TokenKind::AnyCtrl => {
                    combo.any_ctrl = true;
                },
                TokenKind::AnyAlt => {
                    combo.any_alt = true;
                },
                TokenKind::AnyShift => {
                    combo.any_shift = true;
                },
                TokenKind::AnyWin => {
                    combo.any_win = true;
                },
                TokenKind::Exact(vk) => {
                    match combo.push_mod(vk) {
                        Ok(()) => {},
                        Err(m) => {
                            proof {
                                lemma_fault_persists(ps, i + 1);
                            }
                            return Err(m);
                        },
                    }
                },
                TokenKind::Mouse => {
                    proof {
                        lemma_fault_persists(ps, i + 1);
                    }
                    return Err(fault_text(ComboFaultKind::MouseButton, &tok));
                },
                TokenKind::Other => {
                    if main.is_some() {
                        proof {
                            lemma_fault_persists(ps, i + 1);
                        }
                        return Err(fault_text(ComboFaultKind::ExtraMainKey, &tok));
                    }
                    match key_to_vk(&tok) {
                        Some(vk) => {
                            main = Some(vk);
                        },
                        None => {
                            proof {
                                lemma_fault_persists(ps, i + 1);
                            }
                            return Err(fault_text(ComboFaultKind::UnknownKey, &tok));
                        },
                    }
                },
            }
        }
        i = i + 1;
    }
    assert(ps.take(ps.len() as int) == ps);
    if tokens == 0 {
        return Err(fault_text(ComboFaultKind::Empty, &empty_tok));
    }
    match main {
        Some(vk) => {
            combo.main_vk = vk;
            if combo.mod_count() == 0 && !(0x70 <= vk && vk <= 0x87) {
                Err(fault_text(ComboFaultKind::BareMainKey, &empty_tok))
            } else {
                Ok(combo)
            }
        },
        None => {
            if combo.mod_count() < 2 {
                Err(fault_text(ComboFaultKind::TooFewModifiers, &empty_tok))
            } else {
                Ok(combo)
            }
        },
    }
}

// ─────────────────────────── combo display ───────────────────────────

pub open spec fn hex_digit(d: nat) -> char {
    if d < 10 {
        (48 + d) as char
    } else {
        (87 + d) as char
    }
}

/// Lowercase hexadecimal digits of `n`, without leading zeros.
pub open spec fn hex_text(n: nat) -> Seq<char>
    decreases n,
{
    if n < 16 {
        seq![hex_digit(n)]
    } else {
        hex_text(n / 16).push(hex_digit(n % 16))
    }
}

/// Decimal digits of `n`, without leading zeros.
pub open spec fn decimal_text(n: nat) -> Seq<char>
    decreases n,
{
    if n < 10 {
        seq![(48 + n) as char]
    } else {
        decimal_text(n / 10).push((48 + n % 10) as char)
    }
}

/// Display name of a virtual-key code (inverse of the key-name table).
pub open spec fn vk_name(vk: u16) -> Seq<char> {
    match vk {
        0xA2 => "lctrl"@,
        0xA3 => "rctrl"@,
        0xA4 => "lalt"@,
        0xA5 => "ralt"@,
        0xA0 => "lshift"@,
        0xA1 => "rshift"@,
        0x5B => "lwin"@,
        0x5C => "rwin"@,
        0x20 => "space"@,
        0x09 => "tab"@,
        0x0D => "enter"@,
        0x08 => "backspace"@,
        0x1B => "esc"@,
        0x13 => "pause"@,
        0x2D => "insert"@,
        0x2E => "delete"@,
        0x24 => "home"@,
        0x23 => "end"@,
        0x21 => "pageup"@,
        0x22 => "pagedown"@,
        0x26 => "up"@,
        0x25 => "left"@,
        0x28 => "down"@,
        0x27 => "right"@,
        0xBD => "minus"@,
        0xBB => "equal"@,
        0xDB => "bracketleft"@,
        0xDD => "bracketright"@,
        0xDC => "backslash"@,
        0xBA => "semicolon"@,
        0xDE => "quote"@,
        0xBC => "comma"@,
        0xBE => "period"@,
        0xBF => "slash"@,
        0xC0 => "backquote"@,
        _ => if 0x41 <= vk <= 0x5A {
            seq![(vk + 0x20) as char]
        } else if 0x30 <= vk <= 0x39 {
            seq![vk as char]
        } else if is_fkey_vk(vk) {
            "f"@ + decimal_text((vk - 0x6F) as nat)
        } else if vk < 16 {
            "vk:0x0"@ + hex_text(vk as nat)
        } else {
            "vk:0x"@ + hex_text(vk as nat)
        },
    }
}

/// Names of the non-zero side-specific modifiers, in slot order.
pub open spec fn mod_names(mods: Seq<u16>) -> Seq<Seq<char>>
    decreases mods.len(),
{
    if mods.len() == 0 {
        Seq::empty()
    } else if mods.last() != 0 {
        mod_names(mods.drop_last()).push(vk_name(mods.last()))
    } else {
        mod_names(mods.drop_last())
    }
}

pub open spec fn part_if(b: bool, name: Seq<char>) -> Seq<Seq<char>> {
    if b {
        seq![name]
    } else {
        Seq::empty()
    }
}

/// The parts that the display of a combo joins with `+`.
pub open spec fn display_parts(c: ComboView) -> Seq<Seq<char>> {
    mod_names(c.mods) + part_if(c.any_ctrl, "ctrl"@) + part_if(c.any_alt, "alt"@) + part_if(
        c.any_shift,
        "shift"@,
    ) + part_if(c.any_win, "win"@) + part_if(c.main_vk != 0, vk_name(c.main_vk))
}

/// The display text of a combo, e.g. `lctrl+lshift`.
pub open spec fn combo_text(c: ComboView) -> Seq<char> {
    join_with(display_parts(c), '+')
}

fn hex_char(d: u16) -> (c: char)
    requires
        d < 16,
    ensures
        c == hex_digit(d as nat),
{
    if d < 10 {
        ((48 + d) as u8) as char
    } else {
        ((87 + d) as u8) as char
    }
}

fn push_hex(s: &mut String, n: u16)
    ensures
        final(s)@ == old(s)@ + hex_text(n as nat),
    decreases n,
{
    if n >= 16 {
        push_hex(s, n / 16);
    }
    push_char(s, hex_char(n % 16));
}

/// Display name of a virtual-key code.
pub fn vk_to_name(vk: u16) -> (s: String)
    ensures
        s@ == vk_name(vk),
{
    match vk {
        0xA2 => String::from_str("lctrl"),
        0xA3 => String::from_str("rctrl"),
        0xA4 => String::from_str("lalt"),
        0xA5 => String::from_str("ralt"),
        0xA0 => String::from_str("lshift"),
        0xA1 => String::from_str("rshift"),
        0x5B => String::from_str("lwin"),
        0x5C => String::from_str("rwin"),
        0x20 => String::from_str("space"),
        0x09 => String::from_str("tab"),
        0x0D => String::from_str("enter"),
        0x08 => String::from_str("backspace"),
        0x1B => String::from_str("esc"),
        0x13 => String::from_str("pause"),
        0x2D => String::from_str("insert"),
        0x2E => String::from_str("delete"),
        0x24 => String::from_str("home"),
        0x23 => String::from_str("end"),
        0x21 => String::from_str("pageup"),
        0x22 => String::from_str("pagedown"),
        0x26 => String::from_str("up"),
        0x25 => String::from_str("left"),
        0x28 => String::from_str("down"),
        0x27 => String::from_str("right"),
        0xBD => String::from_str("minus"),
        0xBB => String::from_str("equal"),
        0xDB => String::from_str("bracketleft"),
        0xDD => String::from_str("bracketright"),
        0xDC => String::from_str("backslash"),
        0xBA => String::from_str("semicolon"),
        0xDE => String::from_str("quote"),
        0xBC => String::from_str("comma"),
        0xBE => String::from_str("period"),
        0xBF => String::from_str("slash"),
        0xC0 => String::from_str("backquote"),
        _ => {
            let mut s = String::new();
            if 0x41 <= vk && vk <= 0x5A {
                push_char(&mut s, ((vk + 0x20) as u8) as char);
            } else if 0x30 <= vk && vk <= 0x39 {
                push_char(&mut s, (vk as u8) as char);
            } else if 0x70 <= vk && vk <= 0x87 {
                let n: u16 = vk - 0x6F;
                s.append("f");
                if n >= 10 {
                    push_char(&mut s, ((48 + n / 10) as u8) as char);
                }
                push_char(&mut s, ((48 + n % 10) as u8) as char);
                assert(n >= 10 ==> decimal_text((n / 10) as nat) == seq![(48 + n / 10) as char]);
            } else {
                if vk < 16 {
                    s.append("vk:0x0");
                } else {
                    s.append("vk:0x");
                }
                push_hex(&mut s, vk);
            }
            s
        },
    }
}

fn append_part(out: &mut String, n: usize, parts: Ghost<Seq<Seq<char>>>, part: &str)
    requires
        n == parts@.len(),
        old(out)@ == join_with(parts@, '+'),
    ensures
        final(out)@ == join_with(parts@.push(part@), '+'),
{
    assert(parts@.push(part@).drop_last() =~= parts@);
    if n > 0 {
        push_char(out, '+');
    } else {
        assert(old(out)@ == Seq::<char>::empty());
        assert(Seq::<char>::empty() + part@ == part@);
    }
    out.append(part);
}

impl Combo {
    /// Display text, e.g. `lctrl+lshift` or `ctrl+shift+f8`.
    pub fn to_string(&self) -> (s: String)
        ensures
            s@ == combo_text(self@),
    {
        let mut out = String::new();
        let ghost mut parts: Seq<Seq<char>> = Seq::empty();
        let mut n: usize = 0;
        let mut i: usize = 0;
        while i < 8
            invariant
                i <= 8,
                self.exact_mods@.len() == 8,
                n == parts.len(),
                n <= i,
                parts == mod_names(self.exact_mods@.take(i as int)),
                out@ == join_with(parts, '+'),
            decreases 8 - i,
        {
            proof {
                assert(self.exact_mods@.take(i + 1).drop_last() == self.exact_mods@.take(i as int));
            }
            let vk = self.exact_mods[i];
            if vk != 0 {
                let name = vk_to_name(vk);
                append_part(&mut out, n, Ghost(parts), name.as_str());
                proof {
                    parts = parts.push(name@);
                }
                n = n + 1;
            }
            i = i + 1;
        }
        assert(self.exact_mods@.take(8) == self.exact_mods@);
        let ghost base = parts;
        if self.any_ctrl {
            append_part(&mut out, n, Ghost(parts), "ctrl");
            proof {
                parts = parts.push("ctrl"@);
            }
            n = n + 1;
        }
        assert(parts == base + part_if(self.any_ctrl, "ctrl"@));
        let ghost base = parts;
        if self.any_alt {
            append_part(&mut out, n, Ghost(parts), "alt");
            proof {
                parts = parts.push("alt"@);
            }
            n = n + 1;
        }
        assert(parts == base + part_if(self.any_alt, "alt"@));
        let ghost base = parts;
        if self.any_shift {
            append_part(&mut out, n, Ghost(parts), "shift");
            proof {
                parts = parts.push("shift"@);
            }
            n = n + 1;
        }
        assert(parts == base + part_if(self.any_shift, "shift"@));
        let ghost base = parts;
        if self.any_win {
            append_part(&mut out, n, Ghost(parts), "win");
            proof {
                parts = parts.push("win"@);
            }
            n = n + 1;
        }
        assert(parts == base + part_if(self.any_win, "win"@));
        let ghost base = parts;
        if self.main_vk != 0 {
            let name = vk_to_name(self.main_vk);
            append_part(&mut out, n, Ghost(parts), name.as_str());
            proof {
                parts = parts.push(name@);
            }
        }
        assert(parts == base + part_if(self.main_vk != 0, vk_name(self.main_vk)));
        assert(parts == display_parts(self@));
        out
    }
}

// ─────────────────────────── runtime engine ───────────────────────────

/// Live hotkey settings.
#[derive(Clone, Copy)]
pub struct Settings {
    pub combo: Combo,
    pub mode: TriggerMode,
}

/// The prompt sound that a transition asks for.
#[derive(Clone, Copy, PartialEq, Eq, Debug, Structural)]
pub enum Cue {
    Start,
    End,
}

/// What the keyboard hook does with one key event.
#[derive(Clone, Copy, PartialEq, Eq, Debug)]
pub struct KeyVerdict {
    /// Swallow the event (the foreground application never sees it).
    pub swallow: bool,
    /// Prompt sound to play.
    pub cue: Option<Cue>,
}

/// Edge-triggered hotkey engine: the live settings, the edge latches and the
/// time-window state machine it drives (`None` until attached).
pub struct HotkeyEngine {
    pub settings: Settings,
    /// The combo is currently held (suppresses auto-repeat).
    pub combo_held: bool,
    /// A swallowed main-key press is pending its (also swallowed) release.
    pub swallowed_main: bool,
    pub sm: Option<TimeWindowStateMachine>,
}

/// Win32 keyboard message codes (`WM_KEYDOWN`, `WM_KEYUP`, `WM_SYSKEYDOWN`,
/// `WM_SYSKEYUP`).
pub const WM_KEYDOWN: u32 = 0x100;
pub const WM_KEYUP: u32 = 0x101;
pub const WM_SYSKEYDOWN: u32 = 0x104;
pub const WM_SYSKEYUP: u32 = 0x105;

pub open spec fn is_key_down_msg(msg: u32) -> bool {
    msg == WM_KEYDOWN || msg == WM_SYSKEYDOWN
}

pub open spec fn is_key_up_msg(msg: u32) -> bool {
    msg == WM_KEYUP || msg == WM_SYSKEYUP
}

/// Are all modifiers of `c` among the `held` keys?
pub open spec fn mods_held(c: ComboView, held: Seq<u16>) -> bool {
    &&& forall|k: int| 0 <= k < c.mods.len() && c.mods[k] != 0 ==> held.contains(#[trigger] c.mods[k])
    &&& c.any_ctrl ==> held.contains(VK_LCONTROL) || held.contains(VK_RCONTROL)
    &&& c.any_alt ==> held.contains(VK_LMENU) || held.contains(VK_RMENU)
    &&& c.any_shift ==> held.contains(VK_LSHIFT) || held.contains(VK_RSHIFT)
    &&& c.any_win ==> held.contains(VK_LWIN) || held.contains(VK_RWIN)
}

/// Is the whole combo (modifiers and main key) among the `held` keys?
pub open spec fn combo_down(c: ComboView, held: Seq<u16>) -> bool {
    mods_held(c, held) && (c.main_vk == 0 || held.contains(c.main_vk))
}

/// The keys whose state `combo_down` reads.
pub open spec fn is_watched(c: ComboView, vk: u16) -> bool {
    ||| vk != 0 && c.mods.contains(vk)
    ||| c.any_ctrl && (vk == VK_LCONTROL || vk == VK_RCONTROL)
    ||| c.any_alt && (vk == VK_LMENU || vk == VK_RMENU)
    ||| c.any_shift && (vk == VK_LSHIFT || vk == VK_RSHIFT)
    ||| c.any_win && (vk == VK_LWIN || vk == VK_RWIN)
    ||| c.main_vk != 0 && vk == c.main_vk
}

/// The combo goes down: fire once (auto-repeat suppressed).
pub open spec fn spec_press(e: HotkeyEngine, mode: TriggerMode, now: i64) -> (HotkeyEngine, Option<Cue>) {
    if e.combo_held {
        (e, None)
    } else {
        let e1 = HotkeyEngine { combo_held: true, ..e };
        match e1.sm {
            None => (e1, None),
            Some(sm) => match mode {
                TriggerMode::Toggle => if sm.is_active {
                    (HotkeyEngine { sm: Some(spec_deactivate(sm, now)), ..e1 }, Some(Cue::End))
                } else {
                    (HotkeyEngine { sm: Some(spec_activate(sm, now)), ..e1 }, Some(Cue::Start))
                },
                TriggerMode::PushToTalk => if !sm.is_active {
                    (HotkeyEngine { sm: Some(spec_activate(sm, now)), ..e1 }, Some(Cue::Start))
                } else {
                    (e1, None)
                },
            },
        }
    }
}

/// The combo goes up: only push-to-talk ends a session on release.
pub open spec fn spec_release(e: HotkeyEngine, mode: TriggerMode, now: i64) -> (HotkeyEngine, Option<Cue>) {
    if !e.combo_held {
        (e, None)
    } else {
        let e1 = HotkeyEngine { combo_held: false, ..e };
        if mode != TriggerMode::PushToTalk {
            (e1, None)
        } else {
            match e1.sm {
                None => (e1, None),
                Some(sm) => if sm.is_active {
                    (HotkeyEngine { sm: Some(spec_deactivate(sm, now)), ..e1 }, Some(Cue::End))
                } else {
                    (e1, None)
                },
            }
        }
    }
}

/// One keyboard event `vk`/`msg` with the keys `held` at that moment.
pub open spec fn spec_key_event(e: HotkeyEngine, vk: u16, msg: u32, held: Seq<u16>, now: i64) -> (
    HotkeyEngine,
    KeyVerdict,
) {
    let c = e.settings.combo@;
    let mode = e.settings.mode;
    if c == empty_view() {
        (e, KeyVerdict { swallow: false, cue: None })
    } else {
        let main_event = c.main_vk != 0 && vk == c.main_vk;
        if main_event && is_key_down_msg(msg) && mods_held(c, held) {
            let r = spec_press(HotkeyEngine { swallowed_main: true, ..e }, mode, now);
            (r.0, KeyVerdict { swallow: true, cue: r.1 })
        } else if main_event && is_key_up_msg(msg) && e.swallowed_main {
            let r = spec_release(HotkeyEngine { swallowed_main: false, ..e }, mode, now);
            (r.0, KeyVerdict { swallow: true, cue: r.1 })
        } else if combo_down(c, held) {
            let r = spec_press(e, mode, now);
            (r.0, KeyVerdict { swallow: false, cue: r.1 })
        } else {
            let r = spec_release(e, mode, now);
            (r.0, KeyVerdict { swallow: false, cue: r.1 })
        }
    }
}

/// New settings take effect: the edge latches are reset, and a running
/// push-to-talk session ends (its release may never be recognised).
pub open spec fn spec_update(e: HotkeyEngine, new: Settings, now: i64) -> (HotkeyEngine, Option<Cue>) {
    let e1 = HotkeyEngine { settings: new, combo_held: false, swallowed_main: false, ..e };
    if e.settings.mode == TriggerMode::PushToTalk && e.sm is Some && e.sm->0.is_active {
        (HotkeyEngine { sm: Some(spec_deactivate(e.sm->0, now)), ..e1 }, Some(Cue::End))
    } else {
        (e1, None)
    }
}

/// Log line written when the settings actually changed.
pub open spec fn applied_message(new: Settings) -> Seq<char> {
    "hotkey settings applied: ["@ + combo_text(new.combo@) + "] mode="@ + mode_name(new.mode)
}

fn holds(held: &Vec<u16>, vk: u16) -> (b: bool)
    ensures
        b == held@.contains(vk),
{
    let mut i: usize = 0;
    while i < held.len()
        invariant
            i <= held@.len(),
            forall|j: int| 0 <= j < i ==> held@[j] != vk,
        decreases held.len() - i,
    {
        if held[i] == vk {
            assert(held@[i as int] == vk);
            return true;
        }
        i = i + 1;
    }
    false
}

fn push_key(keys: &mut Vec<u16>, vk: u16)
    ensures
        forall|x: u16| final(keys)@.contains(x) <==> (old(keys)@.contains(x) || x == vk),
{
    keys.push(vk);
    assert forall|x: u16| keys@.contains(x) <==> (old(keys)@.contains(x) || x == vk) by {
        if keys@.contains(x) && x != vk {
            let j = choose|j: int| 0 <= j < keys@.len() && #[trigger] keys@[j] == x;
            assert(old(keys)@[j] == x);
        }
        if old(keys)@.contains(x) {
            let j = choose|j: int| 0 <= j < old(keys)@.len() && #[trigger] old(keys)@[j] == x;
            assert(keys@[j] == x);
        }
        if x == vk {
            assert(keys@[keys@.len() - 1] == x);
        }
    }
}

impl Combo {
    /// Are all modifiers of the combo among the `held` keys?
    pub fn mods_down(&self, held: &Vec<u16>) -> (b: bool)
        ensures
            b == mods_held(self@, held@),
    {
        let mut i: usize = 0;
        while i < 8
            invariant
                i <= 8,
                self.exact_mods@.len() == 8,
                forall|k: int| 0 <= k < i && self.exact_mods@[k] != 0 ==> held@.contains(#[trigger] self.exact_mods@[k]),
            decreases 8 - i,
        {
            let vk = self.exact_mods[i];
            if vk != 0 && !holds(held, vk) {
                assert(self@.mods[i as int] == vk && !held@.contains(vk));
                return false;
            }
            i = i + 1;
        }
        if self.any_ctrl && !(holds(held, VK_LCONTROL) || holds(held, VK_RCONTROL)) {
            return false;
        }
        if self.any_alt && !(holds(held, VK_LMENU) || holds(held, VK_RMENU)) {
            return false;
        }
        if self.any_shift && !(holds(held, VK_LSHIFT) || holds(held, VK_RSHIFT)) {
            return false;
        }
        if self.any_win && !(holds(held, VK_LWIN) || holds(held, VK_RWIN)) {
            return false;
        }
        true
    }

    /// Whole combo (modifiers and main key) among the `held` keys?
    pub fn is_down(&self, held: &Vec<u16>) -> (b: bool)
        ensures
            b == combo_down(self@, held@),
    {
        self.mods_down(held) && (self.main_vk == 0 || holds(held, self.main_vk))
    }

    /// The keys whose state decides whether the combo is down: the hook
    /// polls exactly these.
    pub fn watched_keys(&self) -> (keys: Vec<u16>)
        ensures
            forall|vk: u16| keys@.contains(vk) <==> is_watched(self@, vk),
    {
        let mut keys: Vec<u16> = Vec::new();
        let mut i: usize = 0;
        while i < 8
            invariant
                i <= 8,
                self.exact_mods@.len() == 8,
                forall|vk: u16| keys@.contains(vk) <==> (vk != 0 && exists|j: int| 0 <= j < i && #[trigger] self.exact_mods@[j] == vk),
            decreases 8 - i,
        {
            let vk = self.exact_mods[i];
            let ghost before = keys@;
            if vk != 0 {
                keys.push(vk);
                assert forall|x: u16| keys@.contains(x) <==> (x != 0 && exists|j: int| 0 <= j < i + 1 && #[trigger] self.exact_mods@[j] == x) by {
                    if keys@.contains(x) && x != vk {
                        let j = choose|j: int| 0 <= j < keys@.len() && #[trigger] keys@[j] == x;
                        assert(before[j] == x);
                        assert(before.contains(x));
                    }
                    if x != vk && x != 0 && (exists|j: int| 0 <= j < i + 1 && #[trigger] self.exact_mods@[j] == x) {
                        assert(before.contains(x));
                        let j = choose|j: int| 0 <= j < before.len() && #[trigger] before[j] == x;
                        assert(keys@[j] == x);
                    }
                    if x == vk {
                        assert(keys@[keys@.len() - 1] == x);
                        assert(self.exact_mods@[i as int] == x);
                    }
                }
            } else {
                assert forall|x: u16| keys@.contains(x) <==> (x != 0 && exists|j: int| 0 <= j < i + 1 && #[trigger] self.exact_mods@[j] == x) by {
                    if x != 0 && (exists|j: int| 0 <= j < i + 1 && #[trigger] self.exact_mods@[j] == x) {
                        let j = choose|j: int| 0 <= j < i + 1 && #[trigger] self.exact_mods@[j] == x;
                        assert(j < i);
                    }
                }
            }
            i = i + 1;
        }
        let ghost base = keys@;
        if self.any_ctrl {
            push_key(&mut keys, VK_LCONTROL);
            push_key(&mut keys, VK_RCONTROL);
        }
        if self.any_alt {
            push_key(&mut keys, VK_LMENU);
            push_key(&mut keys, VK_RMENU);
        }
        if self.any_shift {
            push_key(&mut keys, VK_LSHIFT);
            push_key(&mut keys, VK_RSHIFT);
        }
        if self.any_win {
            push_key(&mut keys, VK_LWIN);
            push_key(&mut keys, VK_RWIN);
        }
        if self.main_vk != 0 {
            push_key(&mut keys, self.main_vk);
        }
        assert forall|vk: u16| keys@.contains(vk) <==> is_watched(self@, vk) by {
            if vk != 0 && self@.mods.contains(vk) {
                let k = choose|k: int| 0 <= k < self@.mods.len() && self@.mods[k] == vk;
                assert(self.exact_mods@[k] == vk);
                assert(base.contains(vk));
            }
            if base.contains(vk) {
                let k = choose|k: int| 0 <= k < 8 && #[trigger] self.exact_mods@[k] == vk;
                assert(self@.mods[k] == vk);
                assert(self@.mods.contains(vk));
            }
        }
        keys
    }
}

impl HotkeyEngine {
    /// An engine with no combo (inert) and no state machine attached.
    pub fn new() -> (e: Self)
        ensures
            e.settings.combo@ == empty_view(),
            e.settings.mode == TriggerMode::Toggle,
            !e.combo_held,
            !e.swallowed_main,
            e.sm is None,
    {
        HotkeyEngine {
            settings: Settings { combo: empty_combo(), mode: TriggerMode::Toggle },
            combo_held: false,
            swallowed_main: false,
            sm: None,
        }
    }

    /// Install the state machine (only the first one is kept) and the
    /// initial settings.
    pub fn attach(&mut self, sm: TimeWindowStateMachine, settings: Settings)
        ensures
            final(self).sm == if old(self).sm is Some {
                old(self).sm
            } else {
                Some(sm)
            },
            final(self).settings == settings,
            final(self).combo_held == old(self).combo_held,
            final(self).swallowed_main == old(self).swallowed_main,
    {
        if self.sm.is_none() {
            self.sm = Some(sm);
        }
        self.settings = settings;
    }

    /// Disarm: the combo becomes inert and the latches are cleared.
    pub fn disarm(&mut self)
        ensures
            final(self).settings.combo@ == empty_view(),
            final(self).settings.mode == old(self).settings.mode,
            !final(self).combo_held,
            !final(self).swallowed_main,
            final(self).sm == old(self).sm,
    {
        self.settings.combo = empty_combo();
        self.combo_held = false;
        self.swallowed_main = false;
    }

    /// Currently effective settings.
    pub fn current_settings(&self) -> (s: Settings)
        ensures
            s == self.settings,
    {
        self.settings
    }

    /// The combo went down at `now`.
    pub fn press_edge(&mut self, mode: TriggerMode, now: i64) -> (cue: Option<Cue>)
        ensures
            (*final(self), cue) == spec_press(*old(self), mode, now),
    {
        if self.combo_held {
            return None;
        }
        self.combo_held = true;
        match self.sm.take() {
            None => None,
            Some(mut sm) => {
                let cue = match mode {
                    TriggerMode::Toggle => {
                        if sm.is_active {
                            sm.on_deactivate(now);
                            Some(Cue::End)
                        } else {
                            sm.on_activate(now);
                            Some(Cue::Start)
                        }
                    },
                    TriggerMode::PushToTalk => {
                        if !sm.is_active {
                            sm.on_activate(now);
                            Some(Cue::Start)
                        } else {
                            None
                        }
                    },
                };
                self.sm = Some(sm);
                cue
            },
        }
    }

    /// The combo went up at `now`.
    pub fn release_edge(&mut self, mode: TriggerMode, now: i64) -> (cue: Option<Cue>)
        ensures
            (*final(self), cue) == spec_release(*old(self), mode, now),
    {
        if !self.combo_held {
            return None;
        }
        self.combo_held = false;
        match mode {
            TriggerMode::PushToTalk => {},
            TriggerMode::Toggle => {
                return None;
            },
        }
        match self.sm.take() {
            None => None,
            Some(mut sm) => {
                let cue = if sm.is_active {
                    sm.on_deactivate(now);
                    Some(Cue::End)
                } else {
                    None
                };
                self.sm = Some(sm);
                cue
            },
        }
    }

    /// The keyboard hook's decision for one event at `now`; `held` are the
    /// watched keys that are down.
    pub fn key_event(&mut self, vk: u16, msg: u32, held: &Vec<u16>, now: i64) -> (v: KeyVerdict)
        ensures
            (*final(self), v) == spec_key_event(*old(self), vk, msg, held@, now),
    {
        let combo = self.settings.combo;
        let mode = self.settings.mode;
        if combo.is_empty() {
            return KeyVerdict { swallow: false, cue: None };
        }
        let is_down_msg = msg == WM_KEYDOWN || msg == WM_SYSKEYDOWN;
        let is_up_msg = msg == WM_KEYUP || msg == WM_SYSKEYUP;
        let main_event = combo.main_vk != 0 && vk == combo.main_vk;
        let mods_down = combo.mods_down(held);
        if main_event && is_down_msg && mods_down {
            self.swallowed_main = true;
            let cue = self.press_edge(mode, now);
            return KeyVerdict { swallow: true, cue };
        }
        if main_event && is_up_msg && self.swallowed_main {
            self.swallowed_main = false;
            let cue = self.release_edge(mode, now);
            return KeyVerdict { swallow: true, cue };
        }
        if combo.is_down(held) {
            let cue = self.press_edge(mode, now);
            KeyVerdict { swallow: false, cue }
        } else {
            let cue = self.release_edge(mode, now);
            KeyVerdict { swallow: false, cue }
        }
    }

    /// Swap in new settings at `now`; returns the prompt sound to play and,
    /// when combo or mode changed, the log line.
    pub fn update_settings(&mut self, new: Settings, now: i64) -> (r: (Option<Cue>, Option<String>))
        ensures
            (*final(self), r.0) == spec_update(*old(self), new, now),
            r.1 is Some <==> (old(self).settings.combo@ != new.combo@ || old(self).settings.mode
                != new.mode),
            r.1 matches Some(m) ==> m@ == applied_message(new),
    {
        let old_settings = self.settings;
        self.settings = new;
        self.combo_held = false;
        self.swallowed_main = false;
        let mut cue: Option<Cue> = None;
        if old_settings.mode == TriggerMode::PushToTalk {
            match self.sm.take() {
                None => {},
                Some(mut sm) => {
                    if sm.is_active {
                        sm.on_deactivate(now);
                        cue = Some(Cue::End);
                    }
                    self.sm = Some(sm);
                },
            }
        }
        let changed = !old_settings.combo.same_as(&new.combo) || old_settings.mode != new.mode;
        let log = if changed {
            let mut m = String::from_str("hotkey settings applied: [");
            let text = new.combo.to_string();
            m.append(text.as_str());
            m.append("] mode=");
            m.append(new.mode.as_str());
            Some(m)
        } else {
            None
        };
        (cue, log)
    }
}

// ─────────────────────────── laws ───────────────────────────

/// The safety rules that every accepted combo obeys: a main key needs a
/// modifier unless it is F1–F24, and a modifier-only combo has at least two
/// modifiers.
pub open spec fn combo_is_safe(c: ComboView) -> bool {
    if c.main_vk != 0 {
        mod_count(c) >= 1 || is_fkey_vk(c.main_vk)
    } else {
        mod_count(c) >= 2
    }
}

proof fn lemma_key_vk_nonzero(t: Seq<char>)
    ensures
        key_vk(t) matches Some(v) ==> v != 0,
{
}

proof fn lemma_first_zero_in_range(s: Seq<u16>, j: int)
    ensures
        first_zero_from(s, j) matches Some(i) ==> j <= i < s.len() && s[i] == 0,
    decreases s.len() - j,
{
    if 0 <= j < s.len() && s[j] != 0 {
        lemma_first_zero_in_range(s, j + 1);
    }
}

proof fn lemma_count_nonzero_zeros(s: Seq<u16>)
    requires
        forall|k: int| 0 <= k < s.len() ==> s[k] == 0,
    ensures
        count_nonzero(s) == 0,
    decreases s.len(),
{
    if s.len() > 0 {
        lemma_count_nonzero_zeros(s.drop_last());
    }
}

proof fn lemma_parse_pieces_shape(ps: Seq<Seq<char>>)
    ensures
        parse_pieces(ps) matches Ok(st) ==> {
            &&& st.combo.mods.len() == 8
            &&& st.combo.main_vk == 0
            &&& st.main matches Some(v) ==> v != 0
        },
    decreases ps.len(),
{
    if ps.len() > 0 {
        lemma_parse_pieces_shape(ps.drop_last());
        lemma_key_vk_nonzero(token_of(ps.last()));
        match parse_pieces(ps.drop_last()) {
            Ok(st) => {
                lemma_first_zero_in_range(st.combo.mods, 0);
            },
            Err(_) => {},
        }
    } else {
        assert(empty_view().mods.len() == 8);
    }
}

/// Every combo that parsing accepts obeys the safety rules, so no accepted
/// combo hijacks ordinary typing or fires on a single modifier.
pub proof fn lemma_parsed_combo_is_safe(text: Seq<char>)
    ensures
        spec_parse_combo(text) matches Ok(c) ==> combo_is_safe(c) && c != empty_view(),
{
    lemma_parse_pieces_shape(split_on(text, '+'));
    lemma_count_nonzero_zeros(empty_view().mods);
}

/// Each mode's configuration text selects that mode.
pub proof fn lemma_mode_text_round_trip(m: TriggerMode)
    ensures
        spec_mode_of(mode_name(m)) == m,
{
    reveal_strlit("toggle");
    reveal_strlit("push_to_talk");
    let s = mode_name(m);
    assert(!is_white_space(s[0]) && !is_white_space(s.last()));
    assert(trim_start(s) == s);
    assert(trim_end(s) == s);
}

/// Auto-repeat is suppressed: while the combo stays held, a second press
/// changes nothing and plays nothing.
pub proof fn lemma_press_fires_once(e: HotkeyEngine, mode: TriggerMode, t1: i64, t2: i64)
    ensures
        spec_press(spec_press(e, mode, t1).0, mode, t2) == (spec_press(e, mode, t1).0, None::<Cue>),
{
}

/// In toggle mode releasing the combo never touches the session.
pub proof fn lemma_toggle_release_keeps_session(e: HotkeyEngine, t: i64)
    ensures
        spec_release(e, TriggerMode::Toggle, t).0.sm == e.sm,
        spec_release(e, TriggerMode::Toggle, t).1 is None,
{
}

/// Push-to-talk: holding the combo from `t1` to `t2` is one session
/// `[t1, t2]`, announced by the start and the end sound.
pub proof fn lemma_push_to_talk_session(e: HotkeyEngine, t1: i64, t2: i64)
    requires
        !e.combo_held,
        e.sm matches Some(sm) && !sm.is_active,
    ensures
        ({
            let (e1, c1) = spec_press(e, TriggerMode::PushToTalk, t1);
            let (e2, c2) = spec_release(e1, TriggerMode::PushToTalk, t2);
            &&& c1 == Some(Cue::Start)
            &&& c2 == Some(Cue::End)
            &&& !e2.combo_held
            &&& e2.sm == Some(spec_deactivate(spec_activate(e.sm->0, t1), t2))
        }),
{
}

/// Toggle: a first press starts a session, a second press ends it; the
/// releases in between do nothing.
pub proof fn lemma_toggle_session(e: HotkeyEngine, t1: i64, t2: i64, t3: i64, t4: i64)
    requires
        !e.combo_held,
        e.sm matches Some(sm) && !sm.is_active,
    ensures
        ({
            let (e1, c1) = spec_press(e, TriggerMode::Toggle, t1);
            let (e2, c2) = spec_release(e1, TriggerMode::Toggle, t2);
            let (e3, c3) = spec_press(e2, TriggerMode::Toggle, t3);
            let (e4, c4) = spec_release(e3, TriggerMode::Toggle, t4);
            &&& c1 == Some(Cue::Start)
            &&& c2 is None
            &&& c3 == Some(Cue::End)
            &&& c4 is None
            &&& e4.sm == Some(spec_deactivate(spec_activate(e.sm->0, t1), t3))
        }),
{
}

/// An inert (empty) combo never triggers, never swallows and changes no state.
pub proof fn lemma_inert_combo(e: HotkeyEngine, vk: u16, msg: u32, held: Seq<u16>, now: i64)
    requires
        e.settings.combo@ == empty_view(),
    ensures
        spec_key_event(e, vk, msg, held, now) == (e, KeyVerdict { swallow: false, cue: None }),
{
}

/// Only the main key's own events are swallowed; modifier-only combos never
/// swallow anything (ordinary shortcuts like Ctrl+C keep working).
pub proof fn lemma_only_main_key_swallowed(e: HotkeyEngine, vk: u16, msg: u32, held: Seq<u16>, now: i64)
    ensures
        spec_key_event(e, vk, msg, held, now).1.swallow ==> (e.settings.combo.main_vk != 0 && vk
            == e.settings.combo.main_vk),
{
}

/// New settings clear the edge latches, and no push-to-talk session
/// outlives the settings it was started under.
pub proof fn lemma_update_ends_push_to_talk(e: HotkeyEngine, new: Settings, now: i64)
    ensures
        ({
            let (e1, cue) = spec_update(e, new, now);
            &&& e1.settings == new
            &&& !e1.combo_held
            &&& !e1.swallowed_main
            &&& e.settings.mode == TriggerMode::PushToTalk ==> (e1.sm matches Some(sm) ==> !sm.is_active)
            &&& cue == Some(Cue::End) <==> (e.settings.mode == TriggerMode::PushToTalk && e.sm is Some
                && e.sm->0.is_active)
        }),
{
}


/// New settings never detach or swap the state machine: it stays attached,
/// it is left exactly as it was unless a push-to-talk session was running
/// (that one is ended), and afterwards the next press of the new combo
/// starts a session whenever the machine is idle.
pub proof fn lemma_update_keeps_state_machine(e: HotkeyEngine, new: Settings, now: i64, later: i64)
    ensures
        spec_update(e, new, now).0.sm is Some <==> e.sm is Some,
        !(e.settings.mode == TriggerMode::PushToTalk && e.sm is Some && e.sm->0.is_active)
            ==> spec_update(e, new, now).0.sm == e.sm,
        e.settings.mode == TriggerMode::PushToTalk && e.sm is Some && e.sm->0.is_active
            ==> spec_update(e, new, now).0.sm == Some(spec_deactivate(e.sm->0, now))
            && !spec_update(e, new, now).0.sm->0.is_active,
        spec_update(e, new, now).0.sm matches Some(sm) && !sm.is_active ==> spec_press(
            spec_update(e, new, now).0,
            new.mode,
            later,
        ).1 == Some(Cue::Start),
{
}

/// A keyboard event starts a session only when the whole combo is held, or
/// when the main key itself goes down while the modifiers are held. With a
/// main key that is neither held nor the key of the event, the combo counts
/// as released: nothing starts, nothing is swallowed and the press latch is
/// cleared.
pub proof fn lemma_start_needs_whole_combo(e: HotkeyEngine, vk: u16, msg: u32, held: Seq<u16>, now: i64)
    ensures
        spec_key_event(e, vk, msg, held, now).1.cue == Some(Cue::Start) ==> mods_held(
            e.settings.combo@,
            held,
        ) && (e.settings.combo@.main_vk == 0 || held.contains(e.settings.combo@.main_vk) || (vk
            == e.settings.combo@.main_vk && is_key_down_msg(msg))),
        e.settings.combo@ != empty_view() && e.settings.combo@.main_vk != 0 && !held.contains(
            e.settings.combo@.main_vk,
        ) && vk != e.settings.combo@.main_vk ==> ({
            &&& spec_key_event(e, vk, msg, held, now).1.cue != Some(Cue::Start)
            &&& !spec_key_event(e, vk, msg, held, now).1.swallow
            &&& !spec_key_event(e, vk, msg, held, now).0.combo_held
        }),
{
}

} // verus!
