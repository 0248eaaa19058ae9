use micyou_voice_typing::audio::{
    parse_wav, replace_samples, sample_region, splice_samples, AudioEngine, Channel, PcmLayout, SampleFormat,
    SampleRegion,
};

/// Minimal synthetic WAV builder (fmt + data), little-endian.
fn wav(bits: u16, format: u16, samples: &[u8]) -> Vec<u8> {
    let mut d = Vec::new();
    d.extend_from_slice(b"RIFF");
    d.extend_from_slice(&(36 + samples.len() as u32).to_le_bytes());
    d.extend_from_slice(b"WAVEfmt ");
    d.extend_from_slice(&16u32.to_le_bytes());
    d.extend_from_slice(&format.to_le_bytes());
    d.extend_from_slice(&1u16.to_le_bytes()); // mono
    d.extend_from_slice(&44100u32.to_le_bytes());
    d.extend_from_slice(&0u32.to_le_bytes()); // byte rate (unused here)
    d.extend_from_slice(&((bits / 8) as u16).to_le_bytes());
    d.extend_from_slice(&bits.to_le_bytes());
    d.extend_from_slice(b"data");
    d.extend_from_slice(&(samples.len() as u32).to_le_bytes());
    d.extend_from_slice(samples);
    d
}

#[test]
fn parses_layout_of_16bit_pcm() {
    let w = wav(16, 1, &[0x00, 0x10, 0xff, 0x7f]);
    let p = parse_wav(&w).unwrap();
    assert_eq!(p.format, 1);
    assert_eq!(p.bits, 16);
    assert_eq!(p.off, 44);
    assert_eq!(p.len, 4);
}

#[test]
fn rejects_non_wav() {
    assert!(parse_wav(b"not a riff file at all").is_none());
    assert!(parse_wav(&[]).is_none());
}

// ─────────────── further cases ───────────────

#[test]
fn data_length_is_clamped_to_the_buffer() {
    let mut w = wav(8, 1, &[1, 2, 3]);
    let n = w.len();
    w[40..44].copy_from_slice(&100u32.to_le_bytes());
    let p = parse_wav(&w).unwrap();
    assert_eq!(p, PcmLayout { off: 44, len: n - 44, format: 1, bits: 8 });
}

#[test]
fn data_before_fmt_is_refused() {
    let mut d = Vec::new();
    d.extend_from_slice(b"RIFF\0\0\0\0WAVE");
    d.extend_from_slice(b"data");
    d.extend_from_slice(&2u32.to_le_bytes());
    d.extend_from_slice(&[0, 0]);
    assert!(parse_wav(&d).is_none());
}

#[test]
fn odd_sized_chunks_are_padded() {
    let mut d = Vec::new();
    d.extend_from_slice(b"RIFF\0\0\0\0WAVE");
    d.extend_from_slice(b"LIST");
    d.extend_from_slice(&3u32.to_le_bytes());
    d.extend_from_slice(&[9, 9, 9, 0]); // 3 bytes + pad byte
    let w = wav(32, 3, &[0, 0, 0, 0]);
    d.extend_from_slice(&w[12..]);
    let p = parse_wav(&d).unwrap();
    assert_eq!(p.off, 12 + 12 + 32);
    assert_eq!(p.len, 4);
    assert_eq!(p.format, 3);
}

#[test]
fn master_is_kept_when_the_working_copy_changes() {
    let w = wav(16, 1, &[0x00, 0x40, 0x00, 0x80]);
    let mut ch = Channel::new(w.clone());
    let retired = ch.replace_current(vec![7; w.len()]);
    assert_eq!(retired, w);
    assert_eq!(ch.master, w);
    assert_eq!(ch.current, vec![7; w.len()]);
    let back = ch.replace_current(ch.master.clone());
    assert_eq!(back, vec![7; w.len()]);
    assert_eq!(ch.current, w);
}

#[test]
fn empty_assets_stay_silent() {
    let eng = AudioEngine::new(Vec::new(), wav(8, 1, &[128]));
    assert!(eng.play_start().is_none());
    assert_eq!(eng.play_end().unwrap(), eng.end_bytes());
    assert_eq!(eng.start_bytes().len(), 0);
    assert_eq!(eng.start_master().len(), 0);
}

#[test]
fn sample_region_covers_whole_samples() {
    let w = wav(16, 1, &[1, 2, 3, 4, 5]);
    let p = parse_wav(&w);
    assert_eq!(
        sample_region(w.len(), p),
        Some(SampleRegion { start: 44, end: 48, format: SampleFormat::Signed16 })
    );
    let f = wav(32, 3, &[0; 8]);
    assert_eq!(sample_region(f.len(), parse_wav(&f)).unwrap().format, SampleFormat::Float32);
    let u = wav(8, 1, &[1, 2, 3]);
    assert_eq!(sample_region(u.len(), parse_wav(&u)).unwrap().end, 47);
    let adpcm = wav(4, 2, &[1, 2]);
    assert_eq!(sample_region(adpcm.len(), parse_wav(&adpcm)), None);
    assert_eq!(sample_region(10, None), None);
    let clipped = PcmLayout { off: 4, len: 100, format: 1, bits: 16 };
    assert_eq!(sample_region(9, Some(clipped)).unwrap().end, 8);
}

#[test]
fn splice_keeps_everything_outside_the_region() {
    let src = [1u8, 2, 3, 4, 5, 6];
    assert_eq!(splice_samples(&src, 2, 4, &[9, 9]), vec![1, 2, 9, 9, 5, 6]);
    assert_eq!(splice_samples(&src, 6, 6, &[]), src.to_vec());
}

#[test]
fn replacing_samples_keeps_the_header() {
    let w = wav(16, 1, &[1, 2, 3, 4, 5]);
    let region = sample_region(w.len(), parse_wav(&w));
    let out = replace_samples(&w, region, &[0, 0, 0, 0]);
    assert_eq!(out.len(), w.len());
    assert_eq!(&out[..44], &w[..44]);
    assert_eq!(&out[44..48], &[0, 0, 0, 0]);
    assert_eq!(out[48], 5);
    let adpcm = wav(4, 2, &[1, 2]);
    let none = sample_region(adpcm.len(), parse_wav(&adpcm));
    assert_eq!(replace_samples(&adpcm, none, &[]), adpcm);
}
