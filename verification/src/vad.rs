//! Voice activity: whether the speech probabilities of a stretch of audio make it speech.

use vstd::prelude::*;

verus! {

/// A probability, as the bits of the single-precision number that it is.
#[derive(Debug, Clone, Copy, PartialEq, Eq)]
pub struct Probability {
    /// The bits of the number, as `f32::to_bits` gives them.
    pub bits: u32,
}

/// The bits of positive infinity: below them, and at them, bits order as the numbers do; above
/// them stand what is no number and what is negative.
pub const INFINITY_BITS: u32 = 0x7f80_0000;

/// The sign bit alone, which is negative zero.
pub const NEGATIVE_ZERO_BITS: u32 = 0x8000_0000;

/// The bits of negative infinity, above which nothing is a number.
pub const NEGATIVE_INFINITY_BITS: u32 = 0xff80_0000;

/// One half.
pub open spec fn one_half() -> Probability {
    Probability { bits: 0x3f00_0000 }
}

/// The number is zero or positive, and not negative zero.
pub open spec fn is_positive(p: Probability) -> bool {
    p.bits <= INFINITY_BITS
}

/// The number is negative, or negative zero.
pub open spec fn is_negative(p: Probability) -> bool {
    NEGATIVE_ZERO_BITS <= p.bits <= NEGATIVE_INFINITY_BITS
}

/// The greatest of some numbers and zero; what is negative or no number does not count.
pub open spec fn greatest(probabilities: Seq<Probability>) -> u32
    decreases probabilities.len(),
{
    if probabilities.len() == 0 {
        0
    } else {
        let rest = greatest(probabilities.drop_last());
        let last = probabilities.last();
        if is_positive(last) && last.bits > rest {
            last.bits
        } else {
            rest
        }
    }
}

/// The number with the bits `bits`, which is zero or positive, reaches the threshold.
pub open spec fn reaches(bits: u32, threshold: Probability) -> bool {
    ||| is_negative(threshold)
    ||| is_positive(threshold) && bits >= threshold.bits
}

/// Result of voice activity detection on an audio chunk.
#[derive(Debug, Clone, Copy)]
pub struct VadResult {
    /// Whether there is speech in it.
    pub has_speech: bool,
    /// The greatest speech probability in it.
    pub probability: Probability,
}

/// The threshold that speech is told by.
pub struct Vad {
    /// Speech probability threshold (0.0–1.0, default 0.5).
    pub threshold: Probability,
}

impl Vad {
    /// A detector with the given threshold.
    pub fn new(threshold: Probability) -> (vad: Vad)
        ensures
            vad.threshold == threshold,
    {
        Vad { threshold }
    }

    /// Tells speech by the speech probabilities of an audio chunk: nothing where the model failed,
    /// which counts as silence.
    pub fn detect(&self, probabilities: Option<&[Probability]>) -> (result: VadResult)
        ensures
            match probabilities {
                Some(probabilities) => {
                    &&& result.probability.bits == greatest(probabilities@)
                    &&& result.has_speech == reaches(greatest(probabilities@), self.threshold)
                },
                None => !result.has_speech && result.probability.bits == 0,
            },
    {
        match probabilities {
            Some(probabilities) => {
                let mut best: u32 = 0;
                let mut i: usize = 0;
                while i < probabilities.len()
                    invariant
                        i <= probabilities@.len(),
                        best == greatest(probabilities@.take(i as int)),
                    decreases probabilities@.len() - i,
                {
                    let bits: u32 = probabilities[i].bits;
                    assert(probabilities@.take(i + 1).drop_last() =~= probabilities@.take(i as int));
                    if bits <= INFINITY_BITS && bits > best {
                        best = bits;
                    }
                    i = i + 1;
                }
                assert(probabilities@.take(probabilities@.len() as int) =~= probabilities@);
                let threshold: u32 = self.threshold.bits;
                let negative: bool = NEGATIVE_ZERO_BITS <= threshold && threshold
                    <= NEGATIVE_INFINITY_BITS;
                VadResult {
                    has_speech: negative || (threshold <= INFINITY_BITS && best >= threshold),
                    probability: Probability { bits: best },
                }
            },
            None => VadResult { has_speech: false, probability: Probability { bits: 0 } },
        }
    }
}

proof fn lemma_greatest_bounds(probabilities: Seq<Probability>, i: int)
    requires
        0 <= i < probabilities.len(),
        is_positive(probabilities[i]),
    ensures
        probabilities[i].bits <= greatest(probabilities),
    decreases probabilities.len(),
{
    if i < probabilities.len() - 1 {
        lemma_greatest_bounds(probabilities.drop_last(), i);
    }
}

proof fn lemma_greatest_occurs(probabilities: Seq<Probability>)
    ensures
        greatest(probabilities) <= INFINITY_BITS,
        greatest(probabilities) > 0 ==> exists|i: int|
            0 <= i < probabilities.len() && is_positive(#[trigger] probabilities[i])
                && probabilities[i].bits == greatest(probabilities),
    decreases probabilities.len(),
{
    if probabilities.len() > 0 {
        let rest = probabilities.drop_last();
        lemma_greatest_occurs(rest);
        if greatest(probabilities) > 0 {
            if greatest(probabilities) == probabilities.last().bits && is_positive(
                probabilities.last(),
            ) {
                assert(is_positive(probabilities[probabilities.len() - 1]));
            } else {
                let i = choose|i: int|
                    0 <= i < rest.len() && is_positive(#[trigger] rest[i]) && rest[i].bits
                        == greatest(rest);
                assert(is_positive(probabilities[i]));
            }
        }
    }
}

/// With a threshold above zero, there is speech in a chunk if and only if one of its probabilities
/// reaches the threshold.
pub proof fn law_speech_is_a_probability_at_the_threshold(
    probabilities: Seq<Probability>,
    threshold: Probability,
)
    requires
        is_positive(threshold),
        threshold.bits > 0,
    ensures
        reaches(greatest(probabilities), threshold) <==> exists|i: int|
            0 <= i < probabilities.len() && is_positive(#[trigger] probabilities[i])
                && probabilities[i].bits >= threshold.bits,
{
    lemma_greatest_occurs(probabilities);
    if exists|i: int|
        0 <= i < probabilities.len() && is_positive(#[trigger] probabilities[i])
            && probabilities[i].bits >= threshold.bits {
        let i = choose|i: int|
            0 <= i < probabilities.len() && is_positive(#[trigger] probabilities[i])
                && probabilities[i].bits >= threshold.bits;
        lemma_greatest_bounds(probabilities, i);
    }
}

/// The probability of a chunk is none of its probabilities' lesser: as numbers from zero to infinity
/// go, it is at least each of them, and it is one of them or zero.
pub proof fn law_probability_is_the_greatest(probabilities: Seq<Probability>)
    ensures
        forall|i: int|
            0 <= i < probabilities.len() && (#[trigger] probabilities[i]).bits <= 0x7f80_0000
                ==> probabilities[i].bits <= greatest(probabilities),
        greatest(probabilities) == 0 || exists|i: int|
            0 <= i < probabilities.len() && (#[trigger] probabilities[i]).bits <= 0x7f80_0000
                && probabilities[i].bits == greatest(probabilities),
{
    lemma_greatest_occurs(probabilities);
    assert forall|i: int|
        0 <= i < probabilities.len() && (#[trigger] probabilities[i]).bits
            <= 0x7f80_0000 implies probabilities[i].bits <= greatest(probabilities) by {
        lemma_greatest_bounds(probabilities, i);
    }
    if greatest(probabilities) > 0 {
        let i = choose|i: int|
            0 <= i < probabilities.len() && is_positive(#[trigger] probabilities[i])
                && probabilities[i].bits == greatest(probabilities);
        assert(probabilities[i].bits <= 0x7f80_0000);
    }
}

/// A threshold is reached as numbers compare: one that is zero or positive by what is not below it,
/// a negative one or negative zero always, and what is no number never.
pub proof fn law_threshold_is_reached_as_numbers_compare(bits: u32, threshold: Probability)
    requires
        bits <= 0x7f80_0000,
    ensures
        threshold.bits <= 0x7f80_0000 ==> (reaches(bits, threshold) <==> bits >= threshold.bits),
        0x8000_0000 <= threshold.bits <= 0xff80_0000 ==> reaches(bits, threshold),
        0x7f80_0000 < threshold.bits < 0x8000_0000 || threshold.bits > 0xff80_0000 ==> !reaches(
            bits,
            threshold,
        ),
{
}

} // verus!
