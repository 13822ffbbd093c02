//! Audio encoding: a mono 16-bit PCM WAV image in memory.

use vstd::prelude::*;

verus! {

/// Two little-endian bytes of `v`.
pub open spec fn le16(v: nat) -> Seq<u8> {
    seq![(v % 256) as u8, ((v / 256) % 256) as u8]
}

/// Four little-endian bytes of `v`.
pub open spec fn le32(v: nat) -> Seq<u8> {
    seq![
        (v % 256) as u8,
        ((v / 256) % 256) as u8,
        ((v / 65536) % 256) as u8,
        ((v / 16777216) % 256) as u8,
    ]
}

/// The ASCII tags of a WAV file.
pub open spec fn riff_tag() -> Seq<u8> {
    seq![82u8, 73u8, 70u8, 70u8]
}

pub open spec fn wave_tag() -> Seq<u8> {
    seq![87u8, 65u8, 86u8, 69u8]
}

pub open spec fn fmt_tag() -> Seq<u8> {
    seq![102u8, 109u8, 116u8, 32u8]
}

pub open spec fn data_tag() -> Seq<u8> {
    seq![100u8, 97u8, 116u8, 97u8]
}

/// Each sample as two little-endian bytes of its two's-complement form.
pub open spec fn sample_bytes(samples: Seq<i16>) -> Seq<u8>
    decreases samples.len(),
{
    if samples.len() == 0 {
        Seq::empty()
    } else {
        sample_bytes(samples.drop_last()) + le16(samples.last() as u16 as nat)
    }
}

/// The 44-byte header of a mono 16-bit PCM WAV holding `n` samples.
pub open spec fn wav_header(sample_rate: nat, n: nat) -> Seq<u8> {
    riff_tag() + le32(36 + 2 * n) + wave_tag() + fmt_tag() + le32(16) + le16(1) + le16(1) + le32(
        sample_rate,
    ) + le32(2 * sample_rate) + le16(2) + le16(16) + data_tag() + le32(2 * n)
}

/// The whole WAV image: header, then the samples.
pub open spec fn wav_image(sample_rate: nat, samples: Seq<i16>) -> Seq<u8> {
    wav_header(sample_rate, samples.len()) + sample_bytes(samples)
}

fn push_le16(bytes: &mut Vec<u8>, v: u16)
    ensures
        final(bytes)@ == old(bytes)@ + le16(v as nat),
{
    bytes.push((v % 256) as u8);
    bytes.push(((v / 256) % 256) as u8);
    proof {
        assert(final(bytes)@ =~= old(bytes)@ + le16(v as nat));
    }
}

fn push_le32(bytes: &mut Vec<u8>, v: u32)
    ensures
        final(bytes)@ == old(bytes)@ + le32(v as nat),
{
    bytes.push((v % 256) as u8);
    bytes.push(((v / 256) % 256) as u8);
    bytes.push(((v / 65536) % 256) as u8);
    bytes.push(((v / 16777216) % 256) as u8);
    proof {
        assert(final(bytes)@ =~= old(bytes)@ + le32(v as nat));
    }
}

fn push_tag(bytes: &mut Vec<u8>, a: u8, b: u8, c: u8, d: u8)
    ensures
        final(bytes)@ == old(bytes)@ + seq![a, b, c, d],
{
    bytes.push(a);
    bytes.push(b);
    bytes.push(c);
    bytes.push(d);
    proof {
        assert(final(bytes)@ =~= old(bytes)@ + seq![a, b, c, d]);
    }
}

/// A standard 44-byte WAV header followed by the samples as 16-bit signed
/// little-endian mono PCM.
pub fn create_pcm_wav(sample_rate: u32, samples: &[i16]) -> (bytes: Vec<u8>)
    requires
        36 + 2 * samples@.len() <= u32::MAX,
        2 * sample_rate <= u32::MAX,
    ensures
        bytes@ == wav_image(sample_rate as nat, samples@),
{
    let data_len = (samples.len() * 2) as u32;
    let file_len = 36 + data_len;
    let mut bytes: Vec<u8> = Vec::new();

    push_tag(&mut bytes, 82, 73, 70, 70);
    push_le32(&mut bytes, file_len);
    push_tag(&mut bytes, 87, 65, 86, 69);

    push_tag(&mut bytes, 102, 109, 116, 32);
    push_le32(&mut bytes, 16);
    push_le16(&mut bytes, 1);
    push_le16(&mut bytes, 1);
    push_le32(&mut bytes, sample_rate);
    let byte_rate = sample_rate * 2;
    push_le32(&mut bytes, byte_rate);
    push_le16(&mut bytes, 2);
    push_le16(&mut bytes, 16);

    push_tag(&mut bytes, 100, 97, 116, 97);
    push_le32(&mut bytes, data_len);

    let ghost header = bytes@;
    assert(header =~= wav_header(sample_rate as nat, samples@.len()));
    let mut i: usize = 0;
    while i < samples.len()
        invariant
            i <= samples@.len(),
            bytes@ == header + sample_bytes(samples@.take(i as int)),
        decreases samples@.len() - i,
    {
        let s = samples[i];
        push_le16(&mut bytes, s as u16);
        proof {
            assert(samples@.take(i + 1).drop_last() =~= samples@.take(i as int));
            assert(bytes@ =~= header + sample_bytes(samples@.take(i + 1)));
        }
        i = i + 1;
    }
    assert(samples@.take(samples@.len() as int) =~= samples@);
    bytes
}

} // verus!
