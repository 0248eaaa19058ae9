//! Prompt sounds: the WAV layout parser and the resident sound buffers.
//!
//! Each sound keeps an immutable **master** (the WAV bytes as loaded) and a
//! **current** working copy handed to the player. The working copy is only
//! ever replaced by a copy computed from the master, so repeated volume
//! changes cannot compound.

use vstd::prelude::*;

verus! {

/// Location and sample format of the WAV `data` chunk.
#[derive(Clone, Copy, Debug, PartialEq, Eq)]
pub struct PcmLayout {
    /// Byte offset of the sample data inside the file.
    pub off: usize,
    /// Byte length of the sample data (clamped to the actual buffer).
    pub len: usize,
    /// `wFormatTag` of the `fmt ` chunk (1 = PCM, 3 = IEEE float).
    pub format: u16,
    /// `wBitsPerSample` of the `fmt ` chunk.
    pub bits: u16,
}

/// Little-endian value of `d[i..i + 2]`.
pub open spec fn le_u16_at(d: Seq<u8>, i: int) -> int {
    d[i] + 256 * d[i + 1]
}

/// Little-endian value of `d[i..i + 4]`.
pub open spec fn le_u32_at(d: Seq<u8>, i: int) -> int {
    d[i] + 256 * (d[i + 1] + 256 * (d[i + 2] + 256 * d[i + 3]))
}

/// Do the four bytes at `i` spell the ASCII tag `a b c e`?
pub open spec fn tag_at(d: Seq<u8>, i: int, a: u8, b: u8, c: u8, e: u8) -> bool {
    d[i] == a && d[i + 1] == b && d[i + 2] == c && d[i + 3] == e
}

pub open spec fn is_riff_wave(d: Seq<u8>) -> bool {
    d.len() >= 12 && tag_at(d, 0, 0x52, 0x49, 0x46, 0x46) && tag_at(d, 8, 0x57, 0x41, 0x56, 0x45)
}

pub open spec fn walk_measure(d: Seq<u8>, i: int) -> int {
    if 0 <= i <= d.len() {
        d.len() - i
    } else {
        0
    }
}

/// Offset of the chunk after the one at `i` (chunks are word-aligned).
pub open spec fn next_chunk(d: Seq<u8>, i: int) -> int {
    let sz = le_u32_at(d, i + 4);
    i + 8 + sz + sz % 2
}

/// Walk the chunks from offset `i`, with the `fmt ` information seen so far,
/// until the `data` chunk.
pub open spec fn wav_walk(d: Seq<u8>, i: int, fmt: Option<(u16, u16)>) -> Option<PcmLayout>
    decreases walk_measure(d, i),
{
    if i < 0 || i + 8 > d.len() {
        None
    } else {
        let sz = le_u32_at(d, i + 4);
        let body = i + 8;
        if tag_at(d, i, 0x66, 0x6D, 0x74, 0x20) && sz >= 16 && body + 16 <= d.len() {
            wav_walk(
                d,
                next_chunk(d, i),
                Some((le_u16_at(d, body) as u16, le_u16_at(d, body + 14) as u16)),
            )
        } else if tag_at(d, i, 0x64, 0x61, 0x74, 0x61) {
            match fmt {
                None => None,
                Some(f) => Some(
                    PcmLayout {
                        off: body as usize,
                        len: (if sz <= d.len() - body {
                            sz
                        } else {
                            d.len() - body
                        }) as usize,
                        format: f.0,
                        bits: f.1,
                    },
                ),
            }
        } else {
            wav_walk(d, next_chunk(d, i), fmt)
        }
    }
}

/// The layout of a well-formed RIFF/WAVE file; `None` for anything else.
pub open spec fn spec_parse_wav(d: Seq<u8>) -> Option<PcmLayout> {
    if is_riff_wave(d) {
        wav_walk(d, 12, None)
    } else {
        None
    }
}

proof fn lemma_walk_in_bounds(d: Seq<u8>, i: int, fmt: Option<(u16, u16)>)
    ensures
        wav_walk(d, i, fmt) matches Some(p) ==> p.off + p.len <= d.len(),
    decreases walk_measure(d, i),
{
    if 0 <= i && i + 8 <= d.len() {
        let sz = le_u32_at(d, i + 4);
        let body = i + 8;
        if tag_at(d, i, 0x66, 0x6D, 0x74, 0x20) && sz >= 16 && body + 16 <= d.len() {
            lemma_walk_in_bounds(d, next_chunk(d, i), Some((le_u16_at(d, body) as u16, le_u16_at(d, body + 14) as u16)));
        } else if !tag_at(d, i, 0x64, 0x61, 0x74, 0x61) {
            lemma_walk_in_bounds(d, next_chunk(d, i), fmt);
        }
    }
}

/// The sample data of a parsed layout lies inside the file, so the samples
/// can be sliced out without a bounds failure.
pub proof fn lemma_layout_in_bounds(d: Seq<u8>)
    ensures
        spec_parse_wav(d) matches Some(p) ==> p.off + p.len <= d.len(),
{
    lemma_walk_in_bounds(d, 12, None);
}

/// The 4 little-endian bytes of `x` (taken modulo 2^32).
pub open spec fn u32_le_bytes(x: int) -> Seq<u8> {
    seq![
        (x % 256) as u8,
        (x / 256 % 256) as u8,
        (x / 0x1_0000 % 256) as u8,
        (x / 0x100_0000 % 256) as u8,
    ]
}

/// A RIFF chunk: the 4-byte tag, the body's length as little-endian `u32`,
/// the body, and a pad byte when the body's length is odd.
pub open spec fn riff_chunk(tag: Seq<u8>, body: Seq<u8>) -> Seq<u8> {
    tag + u32_le_bytes(body.len() as int) + body + if body.len() % 2 == 1 {
        seq![0u8]
    } else {
        Seq::<u8>::empty()
    }
}

pub open spec fn fmt_tag() -> Seq<u8> {
    seq![0x66u8, 0x6Du8, 0x74u8, 0x20u8]
}

pub open spec fn data_tag() -> Seq<u8> {
    seq![0x64u8, 0x61u8, 0x74u8, 0x61u8]
}

/// A RIFF/WAVE file made of the given chunks.
pub open spec fn wave_file(chunks: Seq<u8>) -> Seq<u8> {
    seq![0x52u8, 0x49u8, 0x46u8, 0x46u8] + u32_le_bytes(4 + chunks.len() as int) + seq![
        0x57u8,
        0x41u8,
        0x56u8,
        0x45u8,
    ] + chunks
}

proof fn lemma_u32_le_round_trip(x: int)
    requires
        0 <= x < 0x1_0000_0000,
    ensures
        u32_le_bytes(x).len() == 4,
        le_u32_at(u32_le_bytes(x), 0) == x,
{
    let b = u32_le_bytes(x);
    let x1 = x / 256;
    let x2 = x1 / 256;
    let x3 = x2 / 256;
    assert(x / 0x1_0000 == x2);
    assert(x / 0x100_0000 == x3);
    assert(x == x % 256 + 256 * x1);
    assert(x1 == x1 % 256 + 256 * x2);
    assert(x2 == x2 % 256 + 256 * x3);
    assert(x3 < 256);
    assert(x1 % 256 == x / 256 % 256);
}

/// Where the pieces of a `fmt ` + `data` WAVE file lie in its bytes.
proof fn lemma_two_chunk_bytes(fmt_body: Seq<u8>, samples: Seq<u8>)
    requires
        16 <= fmt_body.len() < 0x1_0000_0000,
        samples.len() < 0x1_0000_0000,
    ensures
        ({
            let d = wave_file(riff_chunk(fmt_tag(), fmt_body) + riff_chunk(data_tag(), samples));
            let sz1 = fmt_body.len() as int;
            let sz2 = samples.len() as int;
            let j = 20 + sz1 + sz1 % 2;
            &&& is_riff_wave(d)
            &&& d.len() == j + 8 + sz2 + sz2 % 2
            &&& tag_at(d, 12, 0x66, 0x6D, 0x74, 0x20)
            &&& le_u32_at(d, 16) == sz1
            &&& le_u16_at(d, 20) == le_u16_at(fmt_body, 0)
            &&& le_u16_at(d, 34) == le_u16_at(fmt_body, 14)
            &&& tag_at(d, j, 0x64, 0x61, 0x74, 0x61)
            &&& le_u32_at(d, j + 4) == sz2
        }),
{
    let c1 = riff_chunk(fmt_tag(), fmt_body);
    let c2 = riff_chunk(data_tag(), samples);
    let d = wave_file(c1 + c2);
    let sz1 = fmt_body.len() as int;
    let sz2 = samples.len() as int;
    let j = 20 + sz1 + sz1 % 2;
    lemma_u32_le_round_trip(sz1);
    lemma_u32_le_round_trip(sz2);
    assert(c1.len() == 8 + sz1 + sz1 % 2);
    assert(c2.len() == 8 + sz2 + sz2 % 2);
    assert(d.len() == 12 + c1.len() + c2.len());
    assert forall|k: int| 0 <= k < c1.len() implies #[trigger] d[12 + k] == c1[k] by {}
    assert forall|k: int| 0 <= k < c2.len() implies #[trigger] d[j + k] == c2[k] by {}
    assert forall|k: int| 0 <= k < 4 implies #[trigger] c1[4 + k] == u32_le_bytes(sz1)[k] by {}
    assert forall|k: int| 0 <= k < sz1 implies #[trigger] c1[8 + k] == fmt_body[k] by {}
    assert forall|k: int| 0 <= k < 4 implies #[trigger] c2[4 + k] == u32_le_bytes(sz2)[k] by {}
    assert(is_riff_wave(d));
    // The `fmt ` chunk at offset 12.
    assert(d[12] == 0x66u8 && d[13] == 0x6Du8 && d[14] == 0x74u8 && d[15] == 0x20u8) by {
        assert(d[12int + 0] == c1[0]);
        assert(d[12int + 1] == c1[1]);
        assert(d[12int + 2] == c1[2]);
        assert(d[12int + 3] == c1[3]);
    }
    assert(le_u32_at(d, 16) == sz1) by {
        assert(d[12int + 4] == c1[4int + 0]);
        assert(d[12int + 5] == c1[4int + 1]);
        assert(d[12int + 6] == c1[4int + 2]);
        assert(d[12int + 7] == c1[4int + 3]);
        assert(c1[4int + 0] == u32_le_bytes(sz1)[0]);
        assert(c1[4int + 1] == u32_le_bytes(sz1)[1]);
        assert(c1[4int + 2] == u32_le_bytes(sz1)[2]);
        assert(c1[4int + 3] == u32_le_bytes(sz1)[3]);
    }
    assert(le_u16_at(d, 20) == le_u16_at(fmt_body, 0)) by {
        assert(d[12int + 8] == c1[8int + 0]);
        assert(d[12int + 9] == c1[8int + 1]);
        assert(c1[8int + 0] == fmt_body[0]);
        assert(c1[8int + 1] == fmt_body[1]);
    }
    assert(le_u16_at(d, 34) == le_u16_at(fmt_body, 14)) by {
        assert(d[12int + 22] == c1[8int + 14]);
        assert(d[12int + 23] == c1[8int + 15]);
        assert(c1[8int + 14] == fmt_body[14]);
        assert(c1[8int + 15] == fmt_body[15]);
    }
    // The `data` chunk at offset `j`.
    assert(d[j] == 0x64u8 && d[j + 1] == 0x61u8 && d[j + 2] == 0x74u8 && d[j + 3] == 0x61u8) by {
        assert(d[j + 0] == c2[0]);
        assert(d[j + 1] == c2[1]);
        assert(d[j + 2] == c2[2]);
        assert(d[j + 3] == c2[3]);
    }
    assert(le_u32_at(d, j + 4) == sz2) by {
        assert(d[j + 4] == c2[4int + 0]);
        assert(d[j + 5] == c2[4int + 1]);
        assert(d[j + 6] == c2[4int + 2]);
        assert(d[j + 7] == c2[4int + 3]);
        assert(c2[4int + 0] == u32_le_bytes(sz2)[0]);
        assert(c2[4int + 1] == u32_le_bytes(sz2)[1]);
        assert(c2[4int + 2] == u32_le_bytes(sz2)[2]);
        assert(c2[4int + 3] == u32_le_bytes(sz2)[3]);
    }
    assert(sz2 <= d.len() - (j + 8));
}

/// A `fmt ` chunk is skipped by its declared size, rounded up to an even
/// count, and the walk goes on with the format and bit depth read at body
/// offsets 0 and 14.
pub proof fn lemma_walk_skips_fmt_chunk(d: Seq<u8>, i: int, fmt: Option<(u16, u16)>)
    requires
        0 <= i,
        i + 8 + 16 <= d.len(),
        tag_at(d, i, 0x66, 0x6D, 0x74, 0x20),
        le_u32_at(d, i + 4) >= 16,
    ensures
        wav_walk(d, i, fmt) == wav_walk(
            d,
            i + 8 + le_u32_at(d, i + 4) + le_u32_at(d, i + 4) % 2,
            Some((le_u16_at(d, i + 8) as u16, le_u16_at(d, i + 22) as u16)),
        ),
{
}

/// The chunk walk skips every chunk, `fmt ` included, by its declared size:
/// in a WAVE file made of a `fmt ` chunk whose body has any size of at
/// least 16 bytes, followed by a `data` chunk, the samples are found right
/// after the `data` header, with the format and bit depth that the `fmt `
/// body gives at its offsets 0 and 14.
pub proof fn lemma_fmt_then_data(fmt_body: Seq<u8>, samples: Seq<u8>)
    requires
        16 <= fmt_body.len() < 0x1_0000_0000,
        samples.len() < 0x1_0000_0000,
        wave_file(riff_chunk(fmt_tag(), fmt_body) + riff_chunk(data_tag(), samples)).len()
            <= usize::MAX,
    ensures
        spec_parse_wav(wave_file(riff_chunk(fmt_tag(), fmt_body) + riff_chunk(data_tag(), samples)))
            == Some(
            PcmLayout {
                off: (12 + 8 + fmt_body.len() + fmt_body.len() % 2 + 8) as usize,
                len: samples.len() as usize,
                format: le_u16_at(fmt_body, 0) as u16,
                bits: le_u16_at(fmt_body, 14) as u16,
            },
        ),
{
    lemma_two_chunk_bytes(fmt_body, samples);
    let d = wave_file(riff_chunk(fmt_tag(), fmt_body) + riff_chunk(data_tag(), samples));
    let sz1 = fmt_body.len() as int;
    let sz2 = samples.len() as int;
    let j = 20 + sz1 + sz1 % 2;
    let f = (le_u16_at(d, 20) as u16, le_u16_at(d, 34) as u16);
    lemma_walk_skips_fmt_chunk(d, 12, None);
    assert(!tag_at(d, j, 0x66, 0x6D, 0x74, 0x20));
    assert(wav_walk(d, j, Some(f)) == Some(
        PcmLayout { off: (j + 8) as usize, len: sz2 as usize, format: f.0, bits: f.1 },
    ));
}

fn read_u16_le(d: &[u8], i: usize) -> (v: u16)
    requires
        i + 2 <= d@.len(),
    ensures
        v as int == le_u16_at(d@, i as int),
{
    d[i] as u16 + 256 * (d[i + 1] as u16)
}

fn read_u32_le(d: &[u8], i: usize) -> (v: u32)
    requires
        i + 4 <= d@.len(),
    ensures
        v as int == le_u32_at(d@, i as int),
{
    d[i] as u32 + 256 * (d[i + 1] as u32 + 256 * (d[i + 2] as u32 + 256 * (d[i + 3] as u32)))
}

/// Locate the `data` chunk and read the sample format from `fmt `.
/// Anything that isn't a well-formed RIFF/WAVE gives `None` (such files are
/// never scaled, only played verbatim).
pub fn parse_wav(d: &[u8]) -> (r: Option<PcmLayout>)
    ensures
        r == spec_parse_wav(d@),
{
    if d.len() < 12 || !(d[0] == 0x52 && d[1] == 0x49 && d[2] == 0x46 && d[3] == 0x46) || !(d[8]
        == 0x57 && d[9] == 0x41 && d[10] == 0x56 && d[11] == 0x45) {
        return None;
    }
    let n = d.len();
    let mut i: usize = 12;
    let mut fmt: Option<(u16, u16)> = None;
    while n - i >= 8
        invariant
            n == d@.len(),
            12 <= i <= n,
            wav_walk(d@, i as int, fmt) == spec_parse_wav(d@),
        decreases n - i,
    {
        let sz = read_u32_le(d, i + 4);
        let body = i + 8;
        let next: u128 = body as u128 + sz as u128 + (sz % 2) as u128;
        if d[i] == 0x66 && d[i + 1] == 0x6D && d[i + 2] == 0x74 && d[i + 3] == 0x20 && sz >= 16
            && n - body >= 16 {
            let format = read_u16_le(d, body);
            let bits = read_u16_le(d, body + 14);
            fmt = Some((format, bits));
        } else if d[i] == 0x64 && d[i + 1] == 0x61 && d[i + 2] == 0x74 && d[i + 3] == 0x61 {
            return match fmt {
                None => None,
                Some(f) => {
                    let avail = n - body;
                    let len: usize = if (sz as u64) <= (avail as u64) {
                        sz as usize
                    } else {
                        avail
                    };
                    Some(PcmLayout { off: body, len, format: f.0, bits: f.1 })
                },
            };
        }
        assert(next as int == next_chunk(d@, i as int));
        if next + 8 > n as u128 {
            assert(wav_walk(d@, next as int, fmt) == None::<PcmLayout>);
            return None;
        }
        i = next as usize;
    }
    None
}

/// Sample encodings whose volume can be scaled.
#[derive(Clone, Copy, Debug, PartialEq, Eq)]
pub enum SampleFormat {
    /// 8-bit PCM, unsigned with a 128 bias.
    Unsigned8,
    /// 16-bit little-endian signed PCM.
    Signed16,
    /// 32-bit little-endian IEEE float.
    Float32,
}

pub open spec fn sample_format(format: u16, bits: u16) -> Option<SampleFormat> {
    if format == 1 && bits == 8 {
        Some(SampleFormat::Unsigned8)
    } else if format == 1 && bits == 16 {
        Some(SampleFormat::Signed16)
    } else if format == 3 && bits == 32 {
        Some(SampleFormat::Float32)
    } else {
        None
    }
}

pub open spec fn sample_width(f: SampleFormat) -> int {
    match f {
        SampleFormat::Unsigned8 => 1,
        SampleFormat::Signed16 => 2,
        SampleFormat::Float32 => 4,
    }
}

/// The bytes `[start, end)` of a sound whose samples a volume change
/// rescales: whole samples of the data chunk, within the buffer.
#[derive(Clone, Copy, Debug, PartialEq, Eq)]
pub struct SampleRegion {
    pub start: usize,
    pub end: usize,
    pub format: SampleFormat,
}

/// The region to rescale in a buffer of `src_len` bytes with layout `pcm`;
/// `None` (play verbatim) for unknown layouts and unsupported formats.
pub open spec fn spec_sample_region(src_len: int, pcm: Option<PcmLayout>) -> Option<SampleRegion> {
    match pcm {
        None => None,
        Some(p) => match sample_format(p.format, p.bits) {
            None => None,
            Some(f) => {
                let data_end = if p.off + p.len <= src_len {
                    p.off + p.len
                } else {
                    src_len
                };
                let w = sample_width(f);
                Some(
                    SampleRegion {
                        start: p.off,
                        end: (p.off + ((data_end - p.off) / w) * w) as usize,
                        format: f,
                    },
                )
            },
        },
    }
}

/// Where the samples to rescale lie in a buffer of `src_len` bytes.
pub fn sample_region(src_len: usize, pcm: Option<PcmLayout>) -> (r: Option<SampleRegion>)
    requires
        pcm matches Some(p) ==> p.off <= src_len && p.off + p.len <= usize::MAX,
    ensures
        r == spec_sample_region(src_len as int, pcm),
        r matches Some(g) ==> g.start <= g.end <= src_len && (g.end - g.start) % sample_width(
            g.format,
        ) == 0,
{
    match pcm {
        None => None,
        Some(p) => {
            let f = if p.format == 1 && p.bits == 8 {
                SampleFormat::Unsigned8
            } else if p.format == 1 && p.bits == 16 {
                SampleFormat::Signed16
            } else if p.format == 3 && p.bits == 32 {
                SampleFormat::Float32
            } else {
                return None;
            };
            let w: usize = match f {
                SampleFormat::Unsigned8 => 1,
                SampleFormat::Signed16 => 2,
                SampleFormat::Float32 => 4,
            };
            let data_end = if p.off + p.len <= src_len {
                p.off + p.len
            } else {
                src_len
            };
            let n = data_end - p.off;
            let whole = n / w * w;
            assert(whole <= n) by (nonlinear_arith)
                requires
                    whole == n / w * w,
                    w > 0,
            ;
            assert((whole as int) % (w as int) == 0) by (nonlinear_arith)
                requires
                    whole == n / w * w,
                    w > 0,
            ;
            Some(SampleRegion { start: p.off, end: p.off + whole, format: f })
        },
    }
}

/// `src` with the bytes `[start, end)` replaced by `samples`: same length,
/// everything outside the region untouched.
pub fn splice_samples(src: &[u8], start: usize, end: usize, samples: &[u8]) -> (out: Vec<u8>)
    requires
        start <= end <= src@.len(),
        samples@.len() == end - start,
    ensures
        out@ == src@.subrange(0, start as int) + samples@ + src@.subrange(end as int, src@.len() as int),
        out@.len() == src@.len(),
{
    let mut out: Vec<u8> = Vec::new();
    let mut i: usize = 0;
    while i < start
        invariant
            i <= start <= end <= src@.len(),
            out@ == src@.subrange(0, i as int),
        decreases start - i,
    {
        out.push(src[i]);
        i = i + 1;
    }
    let mut k: usize = 0;
    while k < samples.len()
        invariant
            start <= end <= src@.len(),
            samples@.len() == end - start,
            k <= samples@.len(),
            out@ == src@.subrange(0, start as int) + samples@.subrange(0, k as int),
        decreases samples.len() - k,
    {
        out.push(samples[k]);
        proof {
            assert(samples@.subrange(0, k + 1) == samples@.subrange(0, k as int).push(samples@[k as int]));
        }
        k = k + 1;
    }
    assert(samples@.subrange(0, samples@.len() as int) == samples@);
    let mut j: usize = end;
    while j < src.len()
        invariant
            end <= j <= src@.len(),
            start <= end,
            out@ == src@.subrange(0, start as int) + samples@ + src@.subrange(end as int, j as int),
        decreases src.len() - j,
    {
        out.push(src[j]);
        proof {
            assert(src@.subrange(end as int, j + 1) == src@.subrange(end as int, j as int).push(src@[j as int]));
        }
        j = j + 1;
    }
    out
}

/// `src` with the bytes of `region` replaced by `samples`; `src` itself when
/// there is no region to rescale.
pub open spec fn spec_replace_samples(src: Seq<u8>, region: Option<SampleRegion>, samples: Seq<u8>) -> Seq<u8> {
    match region {
        None => src,
        Some(g) => src.subrange(0, g.start as int) + samples + src.subrange(
            g.end as int,
            src.len() as int,
        ),
    }
}

/// Put the rescaled `samples` back into `src` at `region` (a copy of `src`
/// when there is no region).
pub fn replace_samples(src: &[u8], region: Option<SampleRegion>, samples: &[u8]) -> (out: Vec<u8>)
    requires
        region matches Some(g) ==> g.start <= g.end <= src@.len() && samples@.len() == g.end
            - g.start,
    ensures
        out@ == spec_replace_samples(src@, region, samples@),
{
    match region {
        None => vstd::slice::slice_to_vec(src),
        Some(g) => splice_samples(src, g.start, g.end, samples),
    }
}

/// A volume change touches sample bytes only. Whatever samples of the right
/// length are put back into the region that `spec_sample_region` picks, the
/// result is as long as `src`, every byte outside the data chunk
/// `[p.off, min(p.off + p.len, src.len()))` is that of `src`, and without a
/// layout or with an unsupported sample format the result is `src` itself.
pub proof fn lemma_rescale_keeps_other_bytes(src: Seq<u8>, pcm: Option<PcmLayout>, samples: Seq<u8>)
    requires
        src.len() <= usize::MAX,
        pcm matches Some(p) ==> p.off <= src.len(),
        spec_sample_region(src.len() as int, pcm) matches Some(g) ==> samples.len() == g.end
            - g.start,
    ensures
        spec_sample_region(src.len() as int, pcm) matches Some(g) ==> g.start <= g.end
            <= src.len(),
        spec_replace_samples(src, spec_sample_region(src.len() as int, pcm), samples).len()
            == src.len(),
        pcm matches Some(p) ==> forall|i: int|
            0 <= i < src.len() && !(p.off <= i < p.off + p.len) ==> #[trigger] spec_replace_samples(
                src,
                spec_sample_region(src.len() as int, pcm),
                samples,
            )[i] == src[i],
        pcm is None || sample_format(pcm->0.format, pcm->0.bits) is None ==> spec_replace_samples(
            src,
            spec_sample_region(src.len() as int, pcm),
            samples,
        ) == src,
{
    let region = spec_sample_region(src.len() as int, pcm);
    let out = spec_replace_samples(src, region, samples);
    if let Some(p) = pcm {
        if let Some(f) = sample_format(p.format, p.bits) {
            let data_end: int = if p.off + p.len <= src.len() {
                p.off + p.len
            } else {
                src.len() as int
            };
            let w = sample_width(f);
            let n = data_end - p.off;
            let whole = (n / w) * w;
            assert(0 <= whole <= n) by (nonlinear_arith)
                requires
                    whole == (n / w) * w,
                    w > 0,
                    n >= 0,
            ;
            let g = region->0;
            assert(g.start == p.off);
            assert(g.end == p.off + whole);
            assert forall|i: int|
                0 <= i < src.len() && !(p.off <= i < p.off + p.len) implies #[trigger] out[i]
                == src[i] by {
                if i < p.off {
                    assert(out[i] == src.subrange(0, g.start as int)[i]);
                } else {
                    let k = i - g.end;
                    assert(out[i] == src.subrange(g.end as int, src.len() as int)[k]);
                }
            }
        }
    }
}

/// One resident sound: the immutable master, its layout, and the working
/// copy that is played.
pub struct Channel {
    pub master: Vec<u8>,
    pub pcm: Option<PcmLayout>,
    pub current: Vec<u8>,
}

impl Channel {
    /// A channel playing its master unchanged.
    pub fn new(data: Vec<u8>) -> (c: Self)
        ensures
            c.master@ == data@,
            c.current@ == data@,
            c.pcm == spec_parse_wav(data@),
    {
        let pcm = parse_wav(data.as_slice());
        let current = data.clone();
        Channel { master: data, pcm, current }
    }

    /// Install a new working copy (computed from the master); the retired
    /// copy is handed back, since an asynchronous playback may still read it.
    pub fn replace_current(&mut self, working: Vec<u8>) -> (retired: Vec<u8>)
        ensures
            final(self).current@ == working@,
            retired@ == old(self).current@,
            final(self).master@ == old(self).master@,
            final(self).pcm == old(self).pcm,
    {
        let mut w = working;
        std::mem::swap(&mut self.current, &mut w);
        w
    }

    /// The bytes to play, or `None` when there is nothing to play (no asset
    /// shipped or an empty file).
    pub fn playable(&self) -> (r: Option<&Vec<u8>>)
        ensures
            r is None <==> self.current@.len() == 0,
            r matches Some(b) ==> b@ == self.current@,
    {
        if self.current.len() == 0 {
            None
        } else {
            Some(&self.current)
        }
    }
}

/// The start and end prompt sounds.
pub struct AudioEngine {
    pub start: Channel,
    pub end: Channel,
}

impl AudioEngine {
    /// Takes ownership of the raw WAV bytes (loaded from `assets/`).
    pub fn new(start_data: Vec<u8>, end_data: Vec<u8>) -> (e: Self)
        ensures
            e.start.master@ == start_data@,
            e.start.current@ == start_data@,
            e.start.pcm == spec_parse_wav(start_data@),
            e.end.master@ == end_data@,
            e.end.current@ == end_data@,
            e.end.pcm == spec_parse_wav(end_data@),
    {
        AudioEngine { start: Channel::new(start_data), end: Channel::new(end_data) }
    }

    /// The start sound to play (`None`: stay silent).
    pub fn play_start(&self) -> (r: Option<&Vec<u8>>)
        ensures
            r is None <==> self.start.current@.len() == 0,
            r matches Some(b) ==> b@ == self.start.current@,
    {
        self.start.playable()
    }

    /// The end sound to play (`None`: stay silent).
    pub fn play_end(&self) -> (r: Option<&Vec<u8>>)
        ensures
            r is None <==> self.end.current@.len() == 0,
            r matches Some(b) ==> b@ == self.end.current@,
    {
        self.end.playable()
    }

    /// The working copy of the start sound.
    pub fn start_bytes(&self) -> (b: &Vec<u8>)
        ensures
            b@ == self.start.current@,
    {
        &self.start.current
    }

    /// The working copy of the end sound.
    pub fn end_bytes(&self) -> (b: &Vec<u8>)
        ensures
            b@ == self.end.current@,
    {
        &self.end.current
    }

    /// The master of the start sound.
    pub fn start_master(&self) -> (b: &Vec<u8>)
        ensures
            b@ == self.start.master@,
    {
        &self.start.master
    }
}

} // verus!
