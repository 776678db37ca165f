//! Joining the two segments of a looping music track.
//!
//! A track comes as an intro segment and a loop segment.  Where both
//! decode, their samples are joined into one 16-bit PCM WAV file;
//! otherwise the two files are simply put one after the other.
use vstd::prelude::*;
use crate::pak::{push_bytes, push_u32, u32_bytes};

verus! {

/// The two little-endian bytes of `v`.
pub open spec fn u16_bytes(v: int) -> Seq<u8> {
    seq![(v % 0x100) as u8, ((v / 0x100) % 0x100) as u8]
}

/// The two little-endian bytes of a sample, in two's complement.
pub open spec fn sample_bytes(s: i16) -> Seq<u8> {
    u16_bytes((s as int) % 0x1_0000)
}

/// The samples as 16-bit little-endian PCM.
pub open spec fn pcm_bytes(s: Seq<i16>) -> Seq<u8>
    decreases s.len(),
{
    if s.len() == 0 {
        Seq::empty()
    } else {
        pcm_bytes(s.drop_last()) + sample_bytes(s.last())
    }
}

/// A WAV file of 16-bit PCM samples: the `RIFF` header, the `fmt ` chunk
/// and the `data` chunk.
pub open spec fn wav_spec(channels: u16, sample_rate: u32, samples: Seq<i16>) -> Seq<u8> {
    let data_size = 2 * samples.len() as int;
    seq![0x52u8, 0x49, 0x46, 0x46] + u32_bytes(36 + data_size)
        + seq![0x57u8, 0x41, 0x56, 0x45]
        + seq![0x66u8, 0x6d, 0x74, 0x20] + u32_bytes(16) + u16_bytes(1) + u16_bytes(channels as int)
        + u32_bytes(sample_rate as int) + u32_bytes(sample_rate * channels * 2)
        + u16_bytes(channels * 2) + u16_bytes(16)
        + seq![0x64u8, 0x61, 0x74, 0x61] + u32_bytes(data_size) + pcm_bytes(samples)
}

/// What decoding both segments gave: the first segment's layout and the
/// samples of each.
pub struct DecodedPair {
    pub channels: u16,
    pub sample_rate: u32,
    pub samples_a: Vec<i16>,
    pub samples_b: Vec<i16>,
}

/// Where a WAV file of these samples can be written: its sizes fit the
/// header's 32-bit and 16-bit fields.
pub open spec fn wav_fits(channels: u16, sample_rate: u32, n_samples: int) -> bool {
    &&& sample_rate * channels * 2 <= u32::MAX
    &&& channels * 2 <= u16::MAX
    &&& 44 + 2 * n_samples <= u32::MAX
}

fn push_u16(v: &mut Vec<u8>, x: u16)
    ensures
        final(v)@ == old(v)@ + u16_bytes(x as int),
{
    v.push((x % 0x100) as u8);
    v.push((x / 0x100) as u8);
    assert(v@ =~= old(v)@ + u16_bytes(x as int));
}

fn push_tag(v: &mut Vec<u8>, a: u8, b: u8, c: u8, d: u8)
    ensures
        final(v)@ == old(v)@ + seq![a, b, c, d],
{
    v.push(a);
    v.push(b);
    v.push(c);
    v.push(d);
    assert(v@ =~= old(v)@ + seq![a, b, c, d]);
}

proof fn lemma_pcm_push(s: Seq<i16>, x: i16)
    ensures
        pcm_bytes(s.push(x)) == pcm_bytes(s) + sample_bytes(x),
{
    assert(s.push(x).drop_last() =~= s);
}

proof fn lemma_pcm_len(s: Seq<i16>)
    ensures
        pcm_bytes(s).len() == 2 * s.len(),
    decreases s.len(),
{
    if s.len() > 0 {
        lemma_pcm_len(s.drop_last());
    }
}

/// Appends the samples as 16-bit little-endian PCM.
fn push_samples(v: &mut Vec<u8>, s: &[i16])
    ensures
        final(v)@ == old(v)@ + pcm_bytes(s@),
{
    let ghost start = v@;
    let mut i: usize = 0;
    assert(s@.subrange(0, 0) =~= Seq::<i16>::empty());
    while i < s.len()
        invariant
            i <= s@.len(),
            v@ == start + pcm_bytes(s@.subrange(0, i as int)),
        decreases s@.len() - i,
    {
        let x = s[i];
        let u: u16 = if x < 0 { (x as i32 + 0x1_0000) as u16 } else { x as u16 };
        assert(u as int == (x as int) % 0x1_0000);
        push_u16(v, u);
        proof {
            lemma_pcm_push(s@.subrange(0, i as int), x);
            assert(s@.subrange(0, i as int).push(x) =~= s@.subrange(0, i + 1));
        }
        i = i + 1;
    }
    assert(s@.subrange(0, s@.len() as int) =~= s@);
}

/// Joins the two segments of a track.  Where both decoded, the result is a
/// WAV file of the first segment's layout holding the samples of the first
/// segment, then those of the second; otherwise it is the two files' bytes
/// one after the other.
pub fn join_bgm_segments(a: &[u8], b: &[u8], decoded: Option<DecodedPair>) -> (r: Vec<u8>)
    requires
        decoded matches Some(d) ==> wav_fits(d.channels, d.sample_rate, d.samples_a@.len() + d.samples_b@.len() as int),
    ensures
        match decoded {
            None => r@ == a@ + b@,
            Some(d) => r@ == wav_spec(d.channels, d.sample_rate, d.samples_a@ + d.samples_b@),
        },
{
    match decoded {
        None => {
            let mut buf: Vec<u8> = Vec::new();
            push_bytes(&mut buf, a);
            push_bytes(&mut buf, b);
            assert(buf@ =~= a@ + b@);
            buf
        },
        Some(d) => {
            let ghost all = d.samples_a@ + d.samples_b@;
            let mut pcm: Vec<u8> = Vec::new();
            push_samples(&mut pcm, d.samples_a.as_slice());
            push_samples(&mut pcm, d.samples_b.as_slice());
            proof {
                lemma_pcm_concat(d.samples_a@, d.samples_b@);
                lemma_pcm_len(all);
            }
            assert(pcm@ =~= pcm_bytes(all));
            let data_size = pcm.len() as u32;
            let bytes_per_sec = d.sample_rate * (d.channels as u32) * 2;
            let block_align = d.channels * 2;
            let mut wav: Vec<u8> = Vec::new();
            push_tag(&mut wav, 0x52, 0x49, 0x46, 0x46);
            push_u32(&mut wav, data_size + 36);
            push_tag(&mut wav, 0x57, 0x41, 0x56, 0x45);
            push_tag(&mut wav, 0x66, 0x6d, 0x74, 0x20);
            push_u32(&mut wav, 16);
            push_u16(&mut wav, 1);
            push_u16(&mut wav, d.channels);
            push_u32(&mut wav, d.sample_rate);
            push_u32(&mut wav, bytes_per_sec);
            push_u16(&mut wav, block_align);
            push_u16(&mut wav, 16);
            push_tag(&mut wav, 0x64, 0x61, 0x74, 0x61);
            push_u32(&mut wav, data_size);
            push_bytes(&mut wav, pcm.as_slice());
            assert(wav@ =~= wav_spec(d.channels, d.sample_rate, all));
            wav
        },
    }
}

proof fn lemma_pcm_concat(x: Seq<i16>, y: Seq<i16>)
    ensures
        pcm_bytes(x + y) == pcm_bytes(x) + pcm_bytes(y),
    decreases y.len(),
{
    if y.len() == 0 {
        assert(x + y =~= x);
        assert(pcm_bytes(y) =~= Seq::<u8>::empty());
        assert(pcm_bytes(x) + pcm_bytes(y) =~= pcm_bytes(x));
    } else {
        lemma_pcm_concat(x, y.drop_last());
        assert((x + y).drop_last() =~= x + y.drop_last());
        assert((x + y).last() == y.last());
    }
}

} // verus!
