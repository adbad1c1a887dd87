use vstd::prelude::*;

verus! {

/// The sound effects of the arcade.
#[derive(Clone, Copy, PartialEq, Eq, Debug, Structural)]
pub enum Sfx {
    Chomp,
    Bounce,
    Score,
    Death,
    Win,
    Select,
}

/// Samples per second of the generated sounds.
pub const SAMPLE_RATE: u32 = 44100;

/// Little-endian bytes of a 32-bit value.
pub open spec fn le32(x: nat) -> Seq<u8> {
    seq![
        (x % 256) as u8,
        ((x / 256) % 256) as u8,
        ((x / 65536) % 256) as u8,
        ((x / 16777216) % 256) as u8,
    ]
}

/// Little-endian bytes of a 16-bit value.
pub open spec fn le16(x: nat) -> Seq<u8> {
    seq![(x % 256) as u8, ((x / 256) % 256) as u8]
}

/// The 44-byte header of a mono 16-bit PCM WAV file at `SAMPLE_RATE`
/// holding `num_samples` samples.
pub open spec fn wav_header_spec(num_samples: nat) -> Seq<u8> {
    let data_len = num_samples * 2;
    seq![82u8, 73u8, 70u8, 70u8]  // "RIFF"
     + le32(36 + data_len) + seq![87u8, 65u8, 86u8, 69u8]  // "WAVE"
     + seq![102u8, 109u8, 116u8, 32u8]  // "fmt "
     + le32(16) + le16(1)  // PCM
     + le16(1)  // mono
     + le32(44100) + le32(88200)  // byte rate
     + le16(2)  // block align
     + le16(16)  // bits per sample
     + seq![100u8, 97u8, 116u8, 97u8]  // "data"
     + le32(data_len)
}

/// Every header declares mono 16-bit PCM at 44100 Hz, and its byte rate and
/// block align agree with that: byte rate = rate * channels * 2 and block
/// align = channels * 2, for one channel.
pub proof fn law_wav_header_mono(num_samples: nat)
    ensures
        wav_header_spec(num_samples).len() == 44,
        wav_header_spec(num_samples).subrange(20, 22) == seq![1u8, 0u8],
        wav_header_spec(num_samples).subrange(22, 24) == seq![1u8, 0u8],
        wav_header_spec(num_samples).subrange(24, 28) == seq![0x44u8, 0xACu8, 0u8, 0u8],
        wav_header_spec(num_samples).subrange(28, 32) == seq![0x88u8, 0x58u8, 0x01u8, 0u8],
        wav_header_spec(num_samples).subrange(32, 34) == seq![2u8, 0u8],
        wav_header_spec(num_samples).subrange(34, 36) == seq![16u8, 0u8],
        0xAC44 == 44100 && 0x015888 == 44100 * 1 * 2 && 2 == 1 * 2,
{
    let h = wav_header_spec(num_samples);
    assert(h.subrange(20, 22) =~= seq![1u8, 0u8]);
    assert(h.subrange(22, 24) =~= seq![1u8, 0u8]);
    assert(h.subrange(24, 28) =~= seq![0x44u8, 0xACu8, 0u8, 0u8]);
    assert(h.subrange(28, 32) =~= seq![0x88u8, 0x58u8, 0x01u8, 0u8]);
    assert(h.subrange(32, 34) =~= seq![2u8, 0u8]);
    assert(h.subrange(34, 36) =~= seq![16u8, 0u8]);
}

/// How many samples `ms` milliseconds take at `SAMPLE_RATE`, cut to 32 bits
/// as the conversion in the generator does.
pub fn sample_count(ms: u32) -> (n: u32)
    ensures
        n == #[verifier::truncate] ((44100 * ms / 1000) as u32),
{
    assert(44100 * (ms as int) <= 44100 * 0xFFFF_FFFF) by (nonlinear_arith)
        requires
            ms <= 0xFFFF_FFFFu32,
    ;
    let total: u64 = SAMPLE_RATE as u64 * ms as u64;
    let n: u32 = #[verifier::truncate] ((total / 1000) as u32);
    n
}

fn push_le32(v: &mut Vec<u8>, x: u32)
    ensures
        final(v)@ == old(v)@ + le32(x as nat),
{
    v.push((x % 256) as u8);
    v.push(((x / 256) % 256) as u8);
    v.push(((x / 65536) % 256) as u8);
    v.push(((x / 16777216) % 256) as u8);
}

fn push_le16(v: &mut Vec<u8>, x: u16)
    ensures
        final(v)@ == old(v)@ + le16(x as nat),
{
    v.push((x % 256) as u8);
    v.push(((x / 256) % 256) as u8);
}

fn push4(v: &mut Vec<u8>, a: u8, b: u8, c: u8, d: u8)
    ensures
        final(v)@ == old(v)@ + seq![a, b, c, d],
{
    v.push(a);
    v.push(b);
    v.push(c);
    v.push(d);
}

/// The RIFF/WAV header, in the field order the format requires, for a sound
/// of `num_samples` 16-bit mono samples.
pub fn wav_header(num_samples: u32) -> (h: Vec<u8>)
    requires
        36 + 2 * num_samples <= u32::MAX,
    ensures
        h@ == wav_header_spec(num_samples as nat),
        h@.len() == 44,
        h@.subrange(0, 4) == seq![82u8, 73u8, 70u8, 70u8],
        h@.subrange(8, 12) == seq![87u8, 65u8, 86u8, 69u8],
        // The data chunk's size field holds the byte length of the samples.
        h@.subrange(40, 44) == le32(2 * num_samples as nat),
        // One channel of 16-bit PCM at 44100 Hz: format 1, channels 1,
        // byte rate 44100 * 1 * 2 = 88200, block align 1 * 2 = 2, 16 bits.
        h@.subrange(20, 22) == seq![1u8, 0u8],
        h@.subrange(22, 24) == seq![1u8, 0u8],
        h@.subrange(24, 28) == seq![0x44u8, 0xACu8, 0u8, 0u8],
        h@.subrange(28, 32) == seq![0x88u8, 0x58u8, 0x01u8, 0u8],
        h@.subrange(32, 34) == seq![2u8, 0u8],
        h@.subrange(34, 36) == seq![16u8, 0u8],
{
    let data_len = num_samples * 2;
    let mut out: Vec<u8> = Vec::new();
    push4(&mut out, 82, 73, 70, 70);
    push_le32(&mut out, 36 + data_len);
    push4(&mut out, 87, 65, 86, 69);
    push4(&mut out, 102, 109, 116, 32);
    push_le32(&mut out, 16);
    push_le16(&mut out, 1);
    push_le16(&mut out, 1);
    push_le32(&mut out, SAMPLE_RATE);
    push_le32(&mut out, SAMPLE_RATE * 2);
    push_le16(&mut out, 2);
    push_le16(&mut out, 16);
    push4(&mut out, 100, 97, 116, 97);
    push_le32(&mut out, data_len);
    assert(out@ =~= wav_header_spec(num_samples as nat));
    assert(out@.subrange(0, 4) =~= seq![82u8, 73u8, 70u8, 70u8]);
    assert(out@.subrange(8, 12) =~= seq![87u8, 65u8, 86u8, 69u8]);
    assert(out@.subrange(40, 44) =~= le32(2 * num_samples as nat));
    proof {
        law_wav_header_mono(num_samples as nat);
    }
    out
}

/// The little-endian bytes of 16-bit samples, in order.
pub open spec fn samples_bytes(samples: Seq<i16>) -> Seq<u8>
    decreases samples.len(),
{
    if samples.len() == 0 {
        seq![]
    } else {
        samples_bytes(samples.drop_last()) + le16((samples.last() as u16) as nat)
    }
}

pub proof fn lemma_samples_bytes_len(samples: Seq<i16>)
    ensures
        samples_bytes(samples).len() == 2 * samples.len(),
    decreases samples.len(),
{
    if samples.len() > 0 {
        lemma_samples_bytes_len(samples.drop_last());
    }
}

/// A complete mono 16-bit PCM WAV file holding `samples`: the header, then
/// each sample in little-endian order; 44 + 2n bytes for n samples.
pub fn wav_file(samples: &Vec<i16>) -> (w: Vec<u8>)
    requires
        36 + 2 * samples@.len() <= u32::MAX,
    ensures
        w@ == wav_header_spec(samples@.len()) + samples_bytes(samples@),
        w@.len() == 44 + 2 * samples@.len(),
{
    let n = samples.len() as u32;
    let mut out = wav_header(n);
    let mut i: usize = 0;
    while i < samples.len()
        invariant
            i <= samples@.len(),
            n == samples@.len(),
            out@ == wav_header_spec(n as nat) + samples_bytes(samples@.take(i as int)),
        decreases samples@.len() - i,
    {
        let sample = samples[i];
        let u: u16 = #[verifier::truncate] (sample as u16);
        push_le16(&mut out, u);
        proof {
            let t = samples@.take(i + 1);
            assert(t.drop_last() =~= samples@.take(i as int));
            assert(t.last() == sample);
        }
        i += 1;
    }
    proof {
        assert(samples@.take(i as int) =~= samples@);
        lemma_samples_bytes_len(samples@);
    }
    out
}

} // verus!
