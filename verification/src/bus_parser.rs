use vstd::prelude::*;

verus! {

/// One transcription broadcast of WhatdidIsay: the sentence `text`, spoken
/// between `start_ms` and `end_ms` (milliseconds).
pub struct WdisMessage {
    pub start_ms: i64,
    pub end_ms: i64,
    pub text: String,
}

/// Length of the fixed header: magic (4) + start (8) + end (8).
pub const WDIS_HEADER_LEN: usize = 20;

/// The little-endian unsigned value of the bytes `b` (8 of them in use).
pub open spec fn le_u64_value(b: Seq<u8>) -> int {
    b[0] + 256 * (b[1] + 256 * (b[2] + 256 * (b[3] + 256 * (b[4] + 256 * (b[5] + 256 * (b[6]
        + 256 * b[7]))))))
}

/// The two's-complement `i64` that the 8 little-endian bytes `b` encode.
pub open spec fn le_i64_value(b: Seq<u8>) -> int {
    let u = le_u64_value(b);
    if u >= 0x8000_0000_0000_0000 {
        u - 0x1_0000_0000_0000_0000
    } else {
        u
    }
}

/// The 8 little-endian bytes of the two's-complement `i64` `a`
/// (what `i64::to_le_bytes` gives): byte `i` is digit `i` of `a mod 2^64`
/// in base 256.
pub open spec fn i64_le_bytes(a: i64) -> Seq<u8> {
    let u: int = if a < 0 {
        a + 0x1_0000_0000_0000_0000
    } else {
        a as int
    };
    let x1 = u / 256;
    let x2 = x1 / 256;
    let x3 = x2 / 256;
    let x4 = x3 / 256;
    let x5 = x4 / 256;
    let x6 = x5 / 256;
    let x7 = x6 / 256;
    seq![
        (u % 256) as u8,
        (x1 % 256) as u8,
        (x2 % 256) as u8,
        (x3 % 256) as u8,
        (x4 % 256) as u8,
        (x5 % 256) as u8,
        (x6 % 256) as u8,
        (x7 % 256) as u8,
    ]
}

/// Reading back the bytes of `a` gives `a`.
pub proof fn lemma_i64_le_round_trip(a: i64)
    ensures
        i64_le_bytes(a).len() == 8,
        le_i64_value(i64_le_bytes(a)) == a,
{
    let u: int = if a < 0 {
        a + 0x1_0000_0000_0000_0000
    } else {
        a as int
    };
    assert(0 <= u < 0x1_0000_0000_0000_0000);
    let x1 = u / 256;
    let x2 = x1 / 256;
    let x3 = x2 / 256;
    let x4 = x3 / 256;
    let x5 = x4 / 256;
    let x6 = x5 / 256;
    let x7 = x6 / 256;
    assert(u == u % 256 + 256 * x1);
    assert(x1 == x1 % 256 + 256 * x2);
    assert(x2 == x2 % 256 + 256 * x3);
    assert(x3 == x3 % 256 + 256 * x4);
    assert(x4 == x4 % 256 + 256 * x5);
    assert(x5 == x5 % 256 + 256 * x6);
    assert(x6 == x6 % 256 + 256 * x7);
    assert(x1 < 0x100_0000_0000_0000);
    assert(x2 < 0x1_0000_0000_0000);
    assert(x3 < 0x100_0000_0000);
    assert(x4 < 0x1_0000_0000);
    assert(x5 < 0x100_0000);
    assert(x6 < 0x1_0000);
    assert(x7 < 0x100);
    assert(x7 == x7 % 256);
    let b = i64_le_bytes(a);
    assert(le_u64_value(b) == u);
}

/// The text that lossy UTF-8 decoding (`String::from_utf8_lossy`) makes of
/// `bytes`: invalid sequences become U+FFFD.
pub uninterp spec fn utf8_lossy(bytes: Seq<u8>) -> Seq<char>;

/// Does `data` start with the magic `WDIS`?
pub open spec fn has_wdis_magic(data: Seq<u8>) -> bool {
    &&& data.len() >= 4
    &&& data[0] == 0x57u8
    &&& data[1] == 0x44u8
    &&& data[2] == 0x49u8
    &&& data[3] == 0x53u8
}

/// Is `data` a transcription broadcast (header present and magic right)?
pub open spec fn is_wdis_payload(data: Seq<u8>) -> bool {
    data.len() >= 20 && has_wdis_magic(data)
}

/// `m` is what the broadcast `data` decodes to.
pub open spec fn decodes_to(data: Seq<u8>, m: WdisMessage) -> bool {
    &&& m.start_ms as int == le_i64_value(data.subrange(4, 12))
    &&& m.end_ms as int == le_i64_value(data.subrange(12, 20))
    &&& m.text@ == utf8_lossy(data.subrange(20, data.len() as int))
    &&& vstd::utf8::valid_utf8(data.subrange(20, data.len() as int)) ==> m.text@
        == vstd::utf8::decode_utf8(data.subrange(20, data.len() as int))
}

/// The little-endian two's-complement `i64` stored at `data[at..at + 8]`
/// (what `i64::from_le_bytes` reads).
fn read_i64_le(data: &[u8], at: usize) -> (v: i64)
    requires
        at + 8 <= data@.len(),
    ensures
        v as int == le_i64_value(data@.subrange(at as int, at + 8)),
{
    let ghost b = data@.subrange(at as int, at + 8);
    assert(b[0] == data@[at as int] && b[1] == data@[at + 1] && b[2] == data@[at + 2] && b[3]
        == data@[at + 3] && b[4] == data@[at + 4] && b[5] == data@[at + 5] && b[6] == data@[at
        + 6] && b[7] == data@[at + 7]);
    let u: u64 = data[at] as u64 + 256 * (data[at + 1] as u64 + 256 * (data[at + 2] as u64 + 256 * (
    data[at + 3] as u64 + 256 * (data[at + 4] as u64 + 256 * (data[at + 5] as u64 + 256 * (data[at
        + 6] as u64 + 256 * (data[at + 7] as u64)))))));
    if u < 0x8000_0000_0000_0000 {
        u as i64
    } else {
        (u - 0x8000_0000_0000_0000) as i64 + i64::MIN
    }
}

/// `String::from_utf8_lossy(bytes).to_string()`. The result is named by
/// `utf8_lossy`; std documents that valid UTF-8 is decoded unchanged.
#[verifier::external_body]
pub(crate) fn decode_utf8_lossy(bytes: &[u8]) -> (s: String)
    ensures
        s@ == utf8_lossy(bytes@),
        vstd::utf8::valid_utf8(bytes@) ==> s@ == vstd::utf8::decode_utf8(bytes@),
{
    String::from_utf8_lossy(bytes).to_string()
}

/// Decode a WhatdidIsay broadcast: `"WDIS"`, start and end time as
/// little-endian `i64`, then the UTF-8 text (decoded lossily).
pub fn parse_wdis_payload(data: &[u8]) -> (res: Option<WdisMessage>)
    ensures
        res is Some <==> is_wdis_payload(data@),
        res matches Some(m) ==> decodes_to(data@, m),
{
    if data.len() < WDIS_HEADER_LEN || !(data[0] == 0x57u8 && data[1] == 0x44u8 && data[2]
        == 0x49u8 && data[3] == 0x53u8) {
        return None;
    }
    let start_ms = read_i64_le(data, 4);
    let end_ms = read_i64_le(data, 12);
    let text = decode_utf8_lossy(&data[20..data.len()]);
    Some(WdisMessage { start_ms, end_ms, text })
}

/// The broadcast that WhatdidIsay sends for a sentence `text` spoken from
/// `start` to `end`: `"WDIS"`, the two times as little-endian `i64`, then the
/// text bytes.
pub open spec fn wdis_frame(start: i64, end: i64, text: Seq<u8>) -> Seq<u8> {
    seq![0x57u8, 0x44u8, 0x49u8, 0x53u8] + i64_le_bytes(start) + i64_le_bytes(end) + text
}

/// Every frame built from two times and a text is accepted as a broadcast,
/// and it decodes to exactly those two times and that text, decoded lossily
/// (unchanged when the text is valid UTF-8).
pub proof fn lemma_wdis_frame_round_trip(start: i64, end: i64, text: Seq<u8>, m: WdisMessage)
    ensures
        is_wdis_payload(wdis_frame(start, end, text)),
        decodes_to(wdis_frame(start, end, text), m) ==> m.start_ms == start && m.end_ms == end,
        decodes_to(wdis_frame(start, end, text), m) ==> m.text@ == utf8_lossy(text),
        decodes_to(wdis_frame(start, end, text), m) && vstd::utf8::valid_utf8(text) ==> m.text@
            == vstd::utf8::decode_utf8(text),
{
    lemma_i64_le_round_trip(start);
    lemma_i64_le_round_trip(end);
    let data = wdis_frame(start, end, text);
    assert(data.subrange(4, 12) =~= i64_le_bytes(start));
    assert(data.subrange(12, 20) =~= i64_le_bytes(end));
    assert(data.subrange(20, data.len() as int) =~= text);
}

} // verus!
