//! Minimal WAV framing: a 44-byte RIFF header for 16-bit mono PCM, then the
//! samples, little-endian. Turning float samples into 16-bit ones is the
//! audio code's part; the bytes of the file are laid out here.

use vstd::prelude::*;

verus! {

/// `v` as two little-endian bytes.
pub open spec fn le16(v: nat) -> Seq<u8> {
    seq![(v % 256) as u8, ((v / 256) % 256) as u8]
}

/// `v` as four little-endian bytes.
pub open spec fn le32(v: nat) -> Seq<u8> {
    seq![(v % 256) as u8, ((v / 256) % 256) as u8, ((v / 65536) % 256) as u8, ((v / 16777216) % 256) as u8]
}

/// The two's-complement bit pattern of a 16-bit sample.
pub open spec fn pcm16_word(s: i16) -> nat {
    if s < 0 {
        (s + 65536) as nat
    } else {
        s as nat
    }
}

/// The samples as little-endian 16-bit words, in order.
pub open spec fn pcm16_bytes(samples: Seq<i16>) -> Seq<u8>
    decreases samples.len(),
{
    if samples.len() == 0 {
        seq![]
    } else {
        pcm16_bytes(samples.drop_last()) + le16(pcm16_word(samples.last()))
    }
}

/// The header of a 16-bit mono PCM file of `n` samples at `rate` Hz.
pub open spec fn wav_header(n: nat, rate: nat) -> Seq<u8> {
    seq![82u8, 73, 70, 70] + le32(36 + 2 * n) + seq![87u8, 65, 86, 69, 102, 109, 116, 32] + le32(16) + le16(1)
        + le16(1) + le32(rate) + le32(rate * 2) + le16(2) + le16(16) + seq![100u8, 97, 116, 97] + le32(2 * n)
}

fn push_le16(out: &mut Vec<u8>, v: u16)
    ensures
        final(out)@ == old(out)@ + le16(v as nat),
{
    out.push((v % 256) as u8);
    out.push(((v / 256) % 256) as u8);
    assert(final(out)@ =~= old(out)@ + le16(v as nat));
}

fn push_le32(out: &mut Vec<u8>, v: u32)
    ensures
        final(out)@ == old(out)@ + le32(v as nat),
{
    out.push((v % 256) as u8);
    out.push(((v / 256) % 256) as u8);
    out.push(((v / 65536) % 256) as u8);
    out.push(((v / 16777216) % 256) as u8);
    assert(final(out)@ =~= old(out)@ + le32(v as nat));
}

fn push_bytes4(out: &mut Vec<u8>, a: u8, b: u8, c: u8, d: u8)
    ensures
        final(out)@ == old(out)@ + seq![a, b, c, d],
{
    out.push(a);
    out.push(b);
    out.push(c);
    out.push(d);
    assert(final(out)@ =~= old(out)@ + seq![a, b, c, d]);
}

/// A WAV file holding `samples` as 16-bit mono PCM at `sample_rate` Hz.
pub fn encode_mono(samples: &[i16], sample_rate: u32) -> (r: Vec<u8>)
    requires
        36 + 2 * samples@.len() <= u32::MAX,
        2 * sample_rate <= u32::MAX,
    ensures
        r@ == wav_header(samples@.len(), sample_rate as nat) + pcm16_bytes(samples@),
{
    let n = samples.len();
    let bytes: u32 = (n * 2) as u32;
    let mut out: Vec<u8> = Vec::new();
    push_bytes4(&mut out, 82, 73, 70, 70);
    push_le32(&mut out, 36 + bytes);
    push_bytes4(&mut out, 87, 65, 86, 69);
    push_bytes4(&mut out, 102, 109, 116, 32);
    push_le32(&mut out, 16);
    push_le16(&mut out, 1);
    push_le16(&mut out, 1);
    push_le32(&mut out, sample_rate);
    push_le32(&mut out, sample_rate * 2);
    push_le16(&mut out, 2);
    push_le16(&mut out, 16);
    push_bytes4(&mut out, 100, 97, 116, 97);
    push_le32(&mut out, bytes);
    let ghost header = out@;
    assert(header =~= wav_header(n as nat, sample_rate as nat));
    let mut i: usize = 0;
    while i < n
        invariant
            n == samples@.len(),
            i <= n,
            out@ == header + pcm16_bytes(samples@.take(i as int)),
        decreases n - i,
    {
        let s = samples[i];
        let w: u16 = if s < 0 {
            (s as i32 + 65536) as u16
        } else {
            s as u16
        };
        push_le16(&mut out, w);
        proof {
            let t = samples@.take(i as int + 1);
            assert(t.drop_last() =~= samples@.take(i as int));
            assert(t.last() == s);
            assert(out@ =~= header + pcm16_bytes(t));
        }
        i = i + 1;
    }
    assert(samples@.take(n as int) =~= samples@);
    out
}


/// The little-endian 16-bit word at `at`.
pub open spec fn read16(b: Seq<u8>, at: int) -> int {
    b[at] as int + 256 * b[at + 1] as int
}

/// The little-endian 32-bit word at `at`.
pub open spec fn read32(b: Seq<u8>, at: int) -> int {
    read16(b, at) + 65536 * read16(b, at + 2)
}

proof fn lemma_le16_reads_back(v: nat)
    requires
        v < 65536,
    ensures
        read16(le16(v), 0) == v,
{
}

proof fn lemma_le32_reads_back(v: nat)
    requires
        v < 0x1_0000_0000,
    ensures
        read32(le32(v), 0) == v,
{
    let b = le32(v);
    assert(read16(b, 0) == v % 65536);
    assert(read16(b, 2) == v / 65536);
}

proof fn lemma_pcm16_bytes_at(samples: Seq<i16>, i: int)
    requires
        0 <= i < samples.len(),
    ensures
        pcm16_bytes(samples).len() == 2 * samples.len(),
        pcm16_bytes(samples)[2 * i] == le16(pcm16_word(samples[i]))[0],
        pcm16_bytes(samples)[2 * i + 1] == le16(pcm16_word(samples[i]))[1],
    decreases samples.len(),
{
    let init = samples.drop_last();
    if i < samples.len() - 1 {
        lemma_pcm16_bytes_at(init, i);
        assert(init[i] == samples[i]);
    } else if init.len() > 0 {
        lemma_pcm16_bytes_at(init, 0);
    } else {
        assert(pcm16_bytes(init) =~= Seq::<u8>::empty());
    }
}

/// Read back by a WAV reader, the file says what was written: RIFF length
/// `36 + 2n`, PCM format, one channel, the sample rate, the byte rate
/// `2 · rate`, two bytes a frame, 16 bits a sample, `2n` bytes of data, and
/// each sample, in order, as the signed little-endian word after the
/// 44-byte header.
pub proof fn lemma_wav_reads_back(samples: Seq<i16>, rate: nat)
    requires
        36 + 2 * samples.len() <= u32::MAX,
        2 * rate <= u32::MAX,
    ensures
        ({
            let n = samples.len() as int;
            let w = wav_header(samples.len(), rate) + pcm16_bytes(samples);
            &&& w.len() == 44 + 2 * n
            &&& w.subrange(0, 4) == seq![82u8, 73, 70, 70]
            &&& read32(w, 4) == 36 + 2 * n
            &&& w.subrange(8, 16) == seq![87u8, 65, 86, 69, 102, 109, 116, 32]
            &&& read32(w, 16) == 16
            &&& read16(w, 20) == 1
            &&& read16(w, 22) == 1
            &&& read32(w, 24) == rate
            &&& read32(w, 28) == 2 * rate
            &&& read16(w, 32) == 2
            &&& read16(w, 34) == 16
            &&& w.subrange(36, 40) == seq![100u8, 97, 116, 97]
            &&& read32(w, 40) == 2 * n
            &&& forall|i: int|
                0 <= i < n ==> {
                    let v = #[trigger] read16(w, 44 + 2 * i);
                    (if v >= 32768 { v - 65536 } else { v }) == samples[i] as int
                }
        }),
{
    let n = samples.len();
    let h = wav_header(n, rate);
    let d = pcm16_bytes(samples);
    let w = h + d;
    if n > 0 {
        lemma_pcm16_bytes_at(samples, 0);
    } else {
        assert(d =~= Seq::<u8>::empty());
    }
    assert(h.len() == 44);
    assert(w.len() == 44 + 2 * n);
    lemma_le32_reads_back(36 + 2 * n);
    lemma_le32_reads_back(16);
    lemma_le16_reads_back(1);
    lemma_le32_reads_back(rate);
    lemma_le32_reads_back(2 * rate);
    lemma_le16_reads_back(2);
    lemma_le16_reads_back(16);
    lemma_le32_reads_back(2 * n);
    assert(w.subrange(0, 4) =~= seq![82u8, 73, 70, 70]);
    assert(w.subrange(8, 16) =~= seq![87u8, 65, 86, 69, 102, 109, 116, 32]);
    assert(w.subrange(36, 40) =~= seq![100u8, 97, 116, 97]);
    assert(read32(w, 4) == read32(le32(36 + 2 * n), 0));
    assert(read32(w, 16) == read32(le32(16), 0));
    assert(read16(w, 20) == read16(le16(1), 0));
    assert(read16(w, 22) == read16(le16(1), 0));
    assert(read32(w, 24) == read32(le32(rate), 0));
    assert(read32(w, 28) == read32(le32(2 * rate), 0));
    assert(read16(w, 32) == read16(le16(2), 0));
    assert(read16(w, 34) == read16(le16(16), 0));
    assert(read32(w, 40) == read32(le32(2 * n), 0));
    assert forall|i: int| 0 <= i < n implies {
        let v = #[trigger] read16(w, 44 + 2 * i);
        (if v >= 32768 { v - 65536 } else { v }) == samples[i] as int
    } by {
        lemma_pcm16_bytes_at(samples, i);
        let word = pcm16_word(samples[i]);
        lemma_le16_reads_back(word);
        assert(read16(w, 44 + 2 * i) == read16(le16(word), 0));
    }
}

} // verus!
