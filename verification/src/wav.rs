//! The WAV file that keeps the last recording.

use vstd::bytes::{u16_to_le_bytes, u32_to_le_bytes};
use vstd::prelude::*;

use crate::audio_capture::SAMPLE_RATE;

verus! {

/// The number of bytes before the samples.
pub const HEADER_BYTES: u32 = 44;

/// The length of the samples in bytes, as the 32-bit field of the header holds it.
pub open spec fn data_length(samples: Seq<i16>) -> u32 {
    ((2 * samples.len()) % 0x1_0000_0000) as u32
}

/// Some 16-bit samples, the low byte of each first.
pub open spec fn sample_bytes(samples: Seq<i16>) -> Seq<u8>
    decreases samples.len(),
{
    if samples.len() == 0 {
        Seq::empty()
    } else {
        sample_bytes(samples.drop_last()) + vstd::bytes::spec_u16_to_le_bytes(
            samples.last() as u16,
        )
    }
}

/// "RIFF".
pub open spec fn riff_tag() -> Seq<u8> {
    seq![0x52u8, 0x49, 0x46, 0x46]
}

/// "WAVE" and "fmt ".
pub open spec fn wave_tag() -> Seq<u8> {
    seq![0x57u8, 0x41, 0x56, 0x45, 0x66, 0x6d, 0x74, 0x20]
}

/// "data".
pub open spec fn data_tag() -> Seq<u8> {
    seq![0x64u8, 0x61, 0x74, 0x61]
}

/// The format chunk's contents: its length, uncompressed, mono, the sample rate, the bytes per
/// second, the bytes per sample and the bits per sample.
pub open spec fn format_fields() -> Seq<u8> {
    vstd::bytes::spec_u32_to_le_bytes(16) + vstd::bytes::spec_u16_to_le_bytes(1)
        + vstd::bytes::spec_u16_to_le_bytes(1) + vstd::bytes::spec_u32_to_le_bytes(SAMPLE_RATE)
        + vstd::bytes::spec_u32_to_le_bytes(32000) + vstd::bytes::spec_u16_to_le_bytes(2)
        + vstd::bytes::spec_u16_to_le_bytes(16)
}

/// The WAV file of some 16-bit samples.
pub open spec fn wav_file(samples: Seq<i16>) -> Seq<u8> {
    riff_tag() + vstd::bytes::spec_u32_to_le_bytes((36 + data_length(samples)) as u32) + wave_tag()
        + format_fields() + data_tag() + vstd::bytes::spec_u32_to_le_bytes(data_length(samples))
        + sample_bytes(samples)
}

fn push_all(bytes: &mut Vec<u8>, more: Vec<u8>)
    ensures
        final(bytes)@ == old(bytes)@ + more@,
{
    let mut rest: Vec<u8> = more;
    bytes.append(&mut rest);
}

/// Encodes samples as a WAV file. Nothing is written for a recording without samples. Of a length
/// that the header's 32 bits do not hold, the header has the lower bits.
pub fn encode(samples: &[i16]) -> (file: Option<Vec<u8>>)
    requires
        data_length(samples@) + 36 <= u32::MAX,
    ensures
        match file {
            Some(bytes) => samples@.len() > 0 && bytes@ == wav_file(samples@),
            None => samples@.len() == 0,
        },
{
    if samples.len() == 0 {
        return None;
    }
    let length: u32 = ((samples.len() as u128 * 2) % 0x1_0000_0000) as u32;
    let mut bytes: Vec<u8> = Vec::new();
    push_all(&mut bytes, vec![0x52u8, 0x49, 0x46, 0x46]);
    push_all(&mut bytes, u32_to_le_bytes(36 + length));
    push_all(&mut bytes, vec![0x57u8, 0x41, 0x56, 0x45, 0x66, 0x6d, 0x74, 0x20]);
    push_all(&mut bytes, u32_to_le_bytes(16));
    push_all(&mut bytes, u16_to_le_bytes(1));
    push_all(&mut bytes, u16_to_le_bytes(1));
    push_all(&mut bytes, u32_to_le_bytes(SAMPLE_RATE));
    push_all(&mut bytes, u32_to_le_bytes(32000));
    push_all(&mut bytes, u16_to_le_bytes(2));
    push_all(&mut bytes, u16_to_le_bytes(16));
    push_all(&mut bytes, vec![0x64u8, 0x61, 0x74, 0x61]);
    push_all(&mut bytes, u32_to_le_bytes(length));
    let ghost header = bytes@;
    assert(header =~= riff_tag() + vstd::bytes::spec_u32_to_le_bytes(
        (36 + data_length(samples@)) as u32,
    ) + wave_tag() + format_fields() + data_tag() + vstd::bytes::spec_u32_to_le_bytes(
        data_length(samples@),
    ));
    let mut i: usize = 0;
    assert(samples@.take(0) =~= Seq::empty());
    assert(header + Seq::<u8>::empty() =~= header);
    while i < samples.len()
        invariant
            i <= samples@.len(),
            bytes@ == header + sample_bytes(samples@.take(i as int)),
        decreases samples@.len() - i,
    {
        let sample: i16 = samples[i];
        let ghost before = bytes@;
        push_all(&mut bytes, u16_to_le_bytes(sample as u16));
        i = i + 1;
        assert(samples@.take(i as int).drop_last() =~= samples@.take(i - 1));
        assert(bytes@ =~= header + sample_bytes(samples@.take(i as int)));
    }
    assert(samples@.take(samples@.len() as int) =~= samples@);
    Some(bytes)
}

proof fn lemma_sample_bytes(samples: Seq<i16>)
    ensures
        sample_bytes(samples).len() == 2 * samples.len(),
        forall|i: int|
            0 <= i < samples.len() ==> sample_bytes(samples).subrange(2 * i, 2 * i + 2)
                == vstd::bytes::spec_u16_to_le_bytes(#[trigger] samples[i] as u16),
    decreases samples.len(),
{
    vstd::bytes::lemma_auto_spec_u16_to_from_le_bytes();
    if samples.len() > 0 {
        let before = samples.drop_last();
        lemma_sample_bytes(before);
        let bytes = sample_bytes(samples);
        assert forall|i: int| 0 <= i < samples.len() implies bytes.subrange(2 * i, 2 * i + 2)
            == vstd::bytes::spec_u16_to_le_bytes(#[trigger] samples[i] as u16) by {
            if i < before.len() {
                assert(before[i] == samples[i]);
                assert(bytes.subrange(2 * i, 2 * i + 2) =~= sample_bytes(before).subrange(
                    2 * i,
                    2 * i + 2,
                ));
            } else {
                assert(bytes.subrange(2 * i, 2 * i + 2) =~= vstd::bytes::spec_u16_to_le_bytes(
                    samples.last() as u16,
                ));
            }
        }
    }
}

/// The bytes of a WAV file from the end of its header on.
pub open spec fn payload(file: Seq<u8>) -> Seq<u8> {
    file.skip(HEADER_BYTES as int)
}

/// A WAV file holds its samples: two bytes behind the header for each, which read back as the
/// sample; and the lengths that its header names are those of what follows them.
pub proof fn law_wav_holds_the_samples(samples: Seq<i16>)
    requires
        2 * samples.len() + 36 <= u32::MAX,
    ensures
        wav_file(samples).len() == HEADER_BYTES + 2 * samples.len(),
        forall|i: int|
            0 <= i < samples.len() ==> vstd::bytes::spec_u16_from_le_bytes(
                payload(wav_file(samples)).subrange(2 * i, 2 * i + 2),
            ) as i16 == #[trigger] samples[i],
        vstd::bytes::spec_u32_from_le_bytes(wav_file(samples).subrange(4, 8))
            == wav_file(samples).len() - 8,
        vstd::bytes::spec_u32_from_le_bytes(wav_file(samples).subrange(40, 44))
            == payload(wav_file(samples)).len(),
{
    vstd::bytes::lemma_auto_spec_u16_to_from_le_bytes();
    vstd::bytes::lemma_auto_spec_u32_to_from_le_bytes();
    lemma_sample_bytes(samples);
    let file = wav_file(samples);
    let total = vstd::bytes::spec_u32_to_le_bytes((36 + data_length(samples)) as u32);
    let length = vstd::bytes::spec_u32_to_le_bytes(data_length(samples));
    assert(format_fields().len() == 20);
    assert(file.len() == 44 + 2 * samples.len());
    assert(payload(file) =~= sample_bytes(samples));
    assert(file.subrange(4, 8) =~= total);
    assert(file.subrange(40, 44) =~= length);
    assert forall|i: int| 0 <= i < samples.len() implies vstd::bytes::spec_u16_from_le_bytes(
        payload(file).subrange(2 * i, 2 * i + 2),
    ) as i16 == #[trigger] samples[i] by {
        let sample: i16 = samples[i];
        assert(payload(file).subrange(2 * i, 2 * i + 2) == vstd::bytes::spec_u16_to_le_bytes(
            sample as u16,
        ));
        assert((sample as u16) as i16 == sample) by (bit_vector);
    }
}

/// A WAV file starts with a header of forty-four bytes, whatever its samples are: the tags, and
/// between them one channel of uncompressed sixteen-bit samples at 16000 a second.
pub proof fn law_wav_header_is_fixed(samples: Seq<i16>)
    ensures
        ({
            let file = wav_file(samples);
            &&& file.len() == 44 + 2 * samples.len()
            &&& file.subrange(0, 4) == seq![0x52u8, 0x49, 0x46, 0x46]
            &&& file.subrange(8, 12) == seq![0x57u8, 0x41, 0x56, 0x45]
            &&& file.subrange(12, 16) == seq![0x66u8, 0x6d, 0x74, 0x20]
            &&& vstd::bytes::spec_u32_from_le_bytes(file.subrange(16, 20)) == 16
            &&& vstd::bytes::spec_u16_from_le_bytes(file.subrange(20, 22)) == 1
            &&& vstd::bytes::spec_u16_from_le_bytes(file.subrange(22, 24)) == 1
            &&& vstd::bytes::spec_u32_from_le_bytes(file.subrange(24, 28)) == 16000
            &&& vstd::bytes::spec_u32_from_le_bytes(file.subrange(28, 32)) == 32000
            &&& vstd::bytes::spec_u16_from_le_bytes(file.subrange(32, 34)) == 2
            &&& vstd::bytes::spec_u16_from_le_bytes(file.subrange(34, 36)) == 16
            &&& file.subrange(36, 40) == seq![0x64u8, 0x61, 0x74, 0x61]
        }),
{
    vstd::bytes::lemma_auto_spec_u16_to_from_le_bytes();
    vstd::bytes::lemma_auto_spec_u32_to_from_le_bytes();
    lemma_sample_bytes(samples);
    let file = wav_file(samples);
    let f = format_fields();
    assert(f.len() == 20);
    assert(file.subrange(16, 36) =~= f);
    assert(file.subrange(0, 4) =~= riff_tag());
    assert(file.subrange(8, 12) =~= seq![0x57u8, 0x41, 0x56, 0x45]);
    assert(file.subrange(12, 16) =~= seq![0x66u8, 0x6d, 0x74, 0x20]);
    assert(file.subrange(36, 40) =~= data_tag());
    assert(file.subrange(16, 20) =~= vstd::bytes::spec_u32_to_le_bytes(16));
    assert(file.subrange(20, 22) =~= vstd::bytes::spec_u16_to_le_bytes(1));
    assert(file.subrange(22, 24) =~= vstd::bytes::spec_u16_to_le_bytes(1));
    assert(file.subrange(24, 28) =~= vstd::bytes::spec_u32_to_le_bytes(SAMPLE_RATE));
    assert(file.subrange(28, 32) =~= vstd::bytes::spec_u32_to_le_bytes(32000));
    assert(file.subrange(32, 34) =~= vstd::bytes::spec_u16_to_le_bytes(2));
    assert(file.subrange(34, 36) =~= vstd::bytes::spec_u16_to_le_bytes(16));
}

/// What is recorded behind some samples stands behind them in the file.
pub proof fn law_samples_stand_in_order(a: Seq<i16>, b: Seq<i16>)
    ensures
        payload(wav_file(a + b)) == payload(wav_file(a)) + payload(wav_file(b)),
{
    lemma_sample_bytes_add_up(a, b);
    lemma_payload(a);
    lemma_payload(b);
    lemma_payload(a + b);
}

proof fn lemma_payload(samples: Seq<i16>)
    ensures
        payload(wav_file(samples)) == sample_bytes(samples),
{
    vstd::bytes::lemma_auto_spec_u16_to_from_le_bytes();
    vstd::bytes::lemma_auto_spec_u32_to_from_le_bytes();
    assert(format_fields().len() == 20);
    assert(payload(wav_file(samples)) =~= sample_bytes(samples));
}

proof fn lemma_sample_bytes_add_up(a: Seq<i16>, b: Seq<i16>)
    ensures
        sample_bytes(a + b) == sample_bytes(a) + sample_bytes(b),
    decreases b.len(),
{
    if b.len() == 0 {
        assert(a + b =~= a);
        assert(sample_bytes(a) + sample_bytes(b) =~= sample_bytes(a));
    } else {
        lemma_sample_bytes_add_up(a, b.drop_last());
        assert((a + b).drop_last() =~= a + b.drop_last());
        assert((a + b).last() == b.last());
        assert(sample_bytes(a + b) =~= sample_bytes(a) + sample_bytes(b));
    }
}

/// The header names the length of the samples in bytes as far as thirty-two bits hold it, and the
/// length of the file behind its first eight bytes, which is thirty-six more.
pub proof fn law_header_names_the_lengths(samples: Seq<i16>)
    requires
        (2 * samples.len()) % 0x1_0000_0000 + 36 <= u32::MAX,
    ensures
        vstd::bytes::spec_u32_from_le_bytes(wav_file(samples).subrange(40, 44)) == (2
            * samples.len()) % 0x1_0000_0000,
        vstd::bytes::spec_u32_from_le_bytes(wav_file(samples).subrange(4, 8)) == (2
            * samples.len()) % 0x1_0000_0000 + 36,
{
    vstd::bytes::lemma_auto_spec_u16_to_from_le_bytes();
    vstd::bytes::lemma_auto_spec_u32_to_from_le_bytes();
    let file = wav_file(samples);
    assert(format_fields().len() == 20);
    assert(file.subrange(4, 8) =~= vstd::bytes::spec_u32_to_le_bytes(
        (36 + data_length(samples)) as u32,
    ));
    assert(file.subrange(40, 44) =~= vstd::bytes::spec_u32_to_le_bytes(data_length(samples)));
}

} // verus!
