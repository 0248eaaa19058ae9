//! Decisions of the plugin ABI layer: which host message means what, how a
//! host reply buffer is read, and which settings the configuration selects.

use vstd::prelude::*;
use crate::bus_parser::{decode_utf8_lossy, decodes_to, is_wdis_payload, parse_wdis_payload, utf8_lossy, WdisMessage};
use crate::hotkey::{
    decimal_value, is_digit, combo_text, fault_message, parse_combo, spec_mode_of, spec_parse_combo, Combo, Settings,
    TriggerMode, DEFAULT_HOTKEY,
};
use crate::text::{chars_of, string_of, trim, trim_chars};

verus! {

/// Host ABI result codes.
pub const MPL_OK: i32 = 0;
pub const MPL_ERR_BUFFER_TOO_SMALL: i32 = 12;

/// What a message from the plugin bus asks of the plugin.
pub enum HostMessage {
    /// The host saved the configuration (or the panel applied it).
    ReloadSettings,
    /// A transcription broadcast to consider for typing.
    Transcript(WdisMessage),
    /// Anything else.
    Ignore,
}

/// Is `topic` one of the two topics that reload the settings?
pub open spec fn is_reload_topic(topic: Seq<char>) -> bool {
    topic == "config:changed"@ || topic == "ui:apply"@
}

/// Route a bus message: settings topics reload, otherwise a well-formed
/// WhatdidIsay payload is a transcript.
pub fn classify_message(topic: &str, payload: &[u8]) -> (r: HostMessage)
    ensures
        is_reload_topic(topic@) ==> r is ReloadSettings,
        !is_reload_topic(topic@) ==> (r is Transcript <==> is_wdis_payload(payload@)),
        !is_reload_topic(topic@) ==> !(r is ReloadSettings),
        r matches HostMessage::Transcript(m) ==> decodes_to(payload@, m),
{
    let t = chars_of(topic);
    if crate::text::chars_eq_str(&t, "config:changed") || crate::text::chars_eq_str(&t, "ui:apply") {
        return HostMessage::ReloadSettings;
    }
    if payload.len() < 20 {
        return HostMessage::Ignore;
    }
    match parse_wdis_payload(payload) {
        Some(m) => HostMessage::Transcript(m),
        None => HostMessage::Ignore,
    }
}

/// After a host call into a buffer: the length to retry with, when the host
/// answered that the buffer was too small (it reported the needed size).
pub fn retry_len(res: i32, size: u32) -> (r: Option<usize>)
    requires
        size as int + 1 <= usize::MAX,
    ensures
        r is Some <==> res == MPL_ERR_BUFFER_TOO_SMALL,
        r matches Some(n) ==> n == size as int + 1,
{
    if res == MPL_ERR_BUFFER_TOO_SMALL {
        Some(size as usize + 1)
    } else {
        None
    }
}

/// The text of a host reply: `None` unless the call succeeded, else the
/// first `size` bytes of `buf` (at most all of it), decoded lossily.
pub fn host_reply_text(res: i32, buf: &[u8], size: u32) -> (r: Option<String>)
    ensures
        r is Some <==> res == MPL_OK,
        r matches Some(s) ==> s@ == utf8_lossy(
            buf@.subrange(0, if size as int <= buf@.len() { size as int } else { buf@.len() as int }),
        ),
{
    if res != MPL_OK {
        return None;
    }
    let n: usize = if (size as u64) <= (buf.len() as u64) {
        size as usize
    } else {
        buf.len()
    };
    Some(decode_utf8_lossy(&buf[0..n]))
}

/// `s` without leading and trailing `"` characters.
pub open spec fn strip_quotes_start(s: Seq<char>) -> Seq<char>
    decreases s.len(),
{
    if s.len() > 0 && s[0] == '"' {
        strip_quotes_start(s.drop_first())
    } else {
        s
    }
}

pub open spec fn strip_quotes_end(s: Seq<char>) -> Seq<char>
    decreases s.len(),
{
    if s.len() > 0 && s.last() == '"' {
        strip_quotes_end(s.drop_last())
    } else {
        s
    }
}

/// A configuration value as the host returns it (JSON text): trimmed, and
/// string quotes removed.
pub open spec fn config_text(raw: Seq<char>) -> Seq<char> {
    strip_quotes_end(strip_quotes_start(trim(raw)))
}

proof fn lemma_strip_start(s: Seq<char>, i: int)
    requires
        0 <= i <= s.len(),
        forall|k: int| 0 <= k < i ==> #[trigger] s[k] == '"',
        i == s.len() || s[i] != '"',
    ensures
        strip_quotes_start(s) == s.subrange(i, s.len() as int),
    decreases i,
{
    if i == 0 {
        assert(s.subrange(0, s.len() as int) == s);
    } else {
        let t = s.drop_first();
        assert forall|k: int| 0 <= k < i - 1 implies #[trigger] t[k] == '"' by {
            assert(t[k] == s[k + 1]);
        }
        lemma_strip_start(t, i - 1);
        assert(t.subrange(i - 1, t.len() as int) == s.subrange(i, s.len() as int));
    }
}

proof fn lemma_strip_end(s: Seq<char>, j: int)
    requires
        0 <= j <= s.len(),
        forall|k: int| j <= k < s.len() ==> #[trigger] s[k] == '"',
        j == 0 || s[j - 1] != '"',
    ensures
        strip_quotes_end(s) == s.subrange(0, j),
    decreases s.len() - j,
{
    if j == s.len() {
        assert(s.subrange(0, j) == s);
    } else {
        let t = s.drop_last();
        assert forall|k: int| j <= k < t.len() implies #[trigger] t[k] == '"' by {
            assert(t[k] == s[k]);
        }
        lemma_strip_end(t, j);
        assert(t.subrange(0, j) == s.subrange(0, j));
    }
}

/// Clean a configuration value read from the host.
pub fn config_value(raw: &str) -> (v: String)
    ensures
        v@ == config_text(raw@),
{
    let t = trim_chars(&chars_of(raw));
    let n = t.len();
    let mut i: usize = 0;
    while i < n && t[i] == '"'
        invariant
            n == t@.len(),
            i <= n,
            forall|k: int| 0 <= k < i ==> #[trigger] t@[k] == '"',
        decreases n - i,
    {
        i = i + 1;
    }
    proof {
        lemma_strip_start(t@, i as int);
    }
    let ghost ts = t@.subrange(i as int, n as int);
    let mut j: usize = n;
    while j > i && t[j - 1] == '"'
        invariant
            n == t@.len(),
            i <= j <= n,
            forall|k: int| j <= k < n ==> #[trigger] t@[k] == '"',
        decreases j,
    {
        j = j - 1;
    }
    proof {
        assert forall|k: int| j - i <= k < ts.len() implies #[trigger] ts[k] == '"' by {
            assert(ts[k] == t@[k + i]);
        }
        if j > i {
            assert(ts[j - i - 1] == t@[j - 1]);
        }
        lemma_strip_end(ts, (j - i) as int);
        assert(ts.subrange(0, (j - i) as int) == t@.subrange(i as int, j as int));
    }
    let mut r: Vec<char> = Vec::new();
    let mut k: usize = i;
    while k < j
        invariant
            i <= k <= j <= n == t@.len(),
            r@ == t@.subrange(i as int, k as int),
        decreases j - k,
    {
        r.push(t[k]);
        k = k + 1;
    }
    string_of(&r)
}

/// The warning logged when a configured combo is refused.
pub open spec fn refused_message(requested: Seq<char>, fault: Seq<char>, fallback: Combo) -> Seq<char> {
    "无效快捷键 ["@ + requested + "]："@ + fault + "；沿用 ["@ + combo_text(fallback@) + "]"@
}

/// The effective combo for the text `requested`: the parsed combo, or
/// `fallback` together with the warning to log.
pub fn resolve_combo(requested: &str, fallback: Combo) -> (r: (Combo, Option<String>))
    ensures
        match spec_parse_combo(requested@) {
            Ok(c) => r.0@ == c && r.1 is None,
            Err(f) => r.0 == fallback && (r.1 matches Some(m) && m@ == refused_message(
                requested@,
                fault_message(f),
                fallback,
            )),
        },
{
    match parse_combo(requested) {
        Ok(c) => (c, None),
        Err(e) => {
            let mut m = String::from_str("无效快捷键 [");
            m.append(requested);
            m.append("]：");
            m.append(e.as_str());
            m.append("；沿用 [");
            let shown = fallback.to_string();
            m.append(shown.as_str());
            m.append("]");
            (fallback, Some(m))
        },
    }
}

/// The mode text that the configuration selects (`toggle` when unset).
pub open spec fn mode_text(mode_cfg: Option<String>) -> Seq<char> {
    match mode_cfg {
        Some(s) => s@,
        None => "toggle"@,
    }
}

/// The hotkey text that the configuration selects (the default when unset
/// or blank).
pub open spec fn hotkey_text(hotkey_cfg: Option<String>) -> Seq<char> {
    match hotkey_cfg {
        Some(s) => if trim(s@).len() > 0 {
            s@
        } else {
            DEFAULT_HOTKEY@
        },
        None => DEFAULT_HOTKEY@,
    }
}

/// Settings from the `mode` and `hotkey` configuration values; a refused
/// combo falls back to `fallback` and yields the warning to log.
pub fn settings_from_config(mode_cfg: Option<String>, hotkey_cfg: Option<String>, fallback: Combo) -> (r: (
    Settings,
    Option<String>,
))
    ensures
        r.0.mode == spec_mode_of(mode_text(mode_cfg)),
        match spec_parse_combo(hotkey_text(hotkey_cfg)) {
            Ok(c) => r.0.combo@ == c && r.1 is None,
            Err(f) => r.0.combo == fallback && (r.1 matches Some(m) && m@ == refused_message(
                hotkey_text(hotkey_cfg),
                fault_message(f),
                fallback,
            )),
        },
{
    let mode = match &mode_cfg {
        Some(s) => TriggerMode::parse(s.as_str()),
        None => TriggerMode::parse(TriggerMode::Toggle.as_str()),
    };
    let (combo, warning) = match &hotkey_cfg {
        Some(s) => {
            if trim_chars(&chars_of(s.as_str())).len() > 0 {
                resolve_combo(s.as_str(), fallback)
            } else {
                resolve_combo(DEFAULT_HOTKEY, fallback)
            }
        },
        None => resolve_combo(DEFAULT_HOTKEY, fallback),
    };
    (Settings { combo, mode }, warning)
}

/// Prompt-sound volume when the configuration gives none, in percent.
pub const DEFAULT_VOLUME_PERCENT: u8 = 100;

pub open spec fn all_digits(t: Seq<char>) -> bool {
    forall|k: int| 0 <= k < t.len() ==> is_digit(#[trigger] t[k])
}

/// The volume (0–100 %) that a `volume` configuration text selects: an
/// integer is clamped to 0..=100; anything else keeps the default.
pub open spec fn spec_volume_percent(t: Seq<char>) -> nat {
    if t.len() > 0 && all_digits(t) {
        if decimal_value(t) <= 100 {
            decimal_value(t)
        } else {
            100
        }
    } else if t.len() > 1 && t[0] == '-' && all_digits(t.drop_first()) {
        0
    } else {
        DEFAULT_VOLUME_PERCENT as nat
    }
}

/// Value of the digits `t[from..]`, capped at 1000; `None` unless they are
/// all digits.
fn capped_decimal(t: &Vec<char>, from: usize) -> (r: Option<u16>)
    requires
        from <= t@.len(),
    ensures
        r is Some <==> all_digits(t@.subrange(from as int, t@.len() as int)),
        r matches Some(v) ==> v as nat == if decimal_value(t@.subrange(from as int, t@.len() as int))
            < 1000 {
            decimal_value(t@.subrange(from as int, t@.len() as int))
        } else {
            1000
        },
{
    let n = t.len();
    let mut val: u16 = 0;
    let mut k: usize = from;
    while k < n
        invariant
            n == t@.len(),
            from <= k <= n,
            all_digits(t@.subrange(from as int, k as int)),
            val as nat == if decimal_value(t@.subrange(from as int, k as int)) < 1000 {
                decimal_value(t@.subrange(from as int, k as int))
            } else {
                1000
            },
        decreases n - k,
    {
        let c = t[k];
        if !('0' <= c && c <= '9') {
            assert(t@.subrange(from as int, n as int)[k - from] == c);
            return None;
        }
        proof {
            assert(t@.subrange(from as int, k + 1).drop_last() == t@.subrange(from as int, k as int));
            assert(t@.subrange(from as int, k + 1).last() == c);
            assert forall|j: int| 0 <= j < k + 1 - from implies is_digit(#[trigger] t@.subrange(from as int, k + 1)[j]) by {
                if j < k - from {
                    assert(t@.subrange(from as int, k + 1)[j] == t@.subrange(from as int, k as int)[j]);
                }
            }
        }
        let d: u16 = (c as u32 - 48) as u16;
        let next: u16 = val * 10 + d;
        val = if next < 1000 {
            next
        } else {
            1000
        };
        k = k + 1;
    }
    Some(val)
}

/// The prompt-sound volume in percent that the `volume` configuration value
/// selects (the default when unset).
pub fn volume_percent(cfg: Option<String>) -> (v: u8)
    ensures
        v as nat == match cfg {
            Some(s) => spec_volume_percent(s@),
            None => DEFAULT_VOLUME_PERCENT as nat,
        },
        v <= 100,
{
    match cfg {
        None => DEFAULT_VOLUME_PERCENT,
        Some(s) => {
            let t = chars_of(s.as_str());
            let n = t.len();
            assert(t@.subrange(0, n as int) == t@);
            if n > 0 {
                match capped_decimal(&t, 0) {
                    Some(val) => {
                        return if val <= 100 {
                            val as u8
                        } else {
                            100
                        };
                    },
                    None => {},
                }
            }
            if n > 1 && t[0] == '-' {
                assert(t@.subrange(1, n as int) == t@.drop_first());
                if capped_decimal(&t, 1).is_some() {
                    return 0;
                }
            }
            DEFAULT_VOLUME_PERCENT
        },
    }
}

} // verus!
