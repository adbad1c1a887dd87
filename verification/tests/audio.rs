use rust_retro_arcade::audio::{sample_count, wav_file, wav_header, SAMPLE_RATE};

#[test]
fn header_has_riff_and_wave_magic() {
    let h = wav_header(sample_count(100));
    assert_eq!(&h[0..4], b"RIFF");
    assert_eq!(&h[8..12], b"WAVE");
    assert_eq!(&h[12..16], b"fmt ");
    assert_eq!(&h[36..40], b"data");
    assert_eq!(h.len(), 44);
}

#[test]
fn sample_count_follows_the_rate() {
    assert_eq!(sample_count(100), 4410);
    assert_eq!(sample_count(50), SAMPLE_RATE * 50 / 1000);
    assert_eq!(sample_count(1), 44);
}

#[test]
fn header_sizes_are_little_endian() {
    let n = sample_count(50);
    let h = wav_header(n);
    let data_len = u32::from_le_bytes([h[40], h[41], h[42], h[43]]);
    assert_eq!(data_len, n * 2);
    let riff_len = u32::from_le_bytes([h[4], h[5], h[6], h[7]]);
    assert_eq!(riff_len, 36 + n * 2);
    assert_eq!(u32::from_le_bytes([h[24], h[25], h[26], h[27]]), 44100);
    assert_eq!(u32::from_le_bytes([h[28], h[29], h[30], h[31]]), 88200);
    assert_eq!(u16::from_le_bytes([h[34], h[35]]), 16);
}

#[test]
fn wav_length_matches_samples() {
    let ms = 100;
    let num_samples = SAMPLE_RATE * ms / 1000;
    let samples = vec![0i16; num_samples as usize];
    let w = wav_file(&samples);
    assert_eq!(w.len(), 44 + (num_samples * 2) as usize);
}

#[test]
fn wav_file_holds_header_then_little_endian_samples() {
    let w = wav_file(&vec![1, -2, 0x1234]);
    assert_eq!(w.len(), 50);
    assert_eq!(&w[..44], &wav_header(3)[..]);
    assert_eq!(&w[44..], &[1, 0, 0xFE, 0xFF, 0x34, 0x12]);
    assert_eq!(u32::from_le_bytes([w[40], w[41], w[42], w[43]]), 6);
}
