//! The features that a controlling strategy disables, as a mask of bits.
use vstd::prelude::*;

verus! {

/// A feature, by the number that it has on the wire.
#[derive(Debug, Clone, Copy, PartialEq, Eq, Structural)]
pub struct Feature {
    pub value: i32,
}

/// How long a mask can be without a bit for a negative number, on the smallest machine.
pub const NEGATIVE_FREE_LEN: usize = 0x1000_0000;

/// Which features are disabled: the bit with a feature's number, counted from the lowest bit of
/// the first byte, is set.
pub struct ControllingStrategy {
    pub disabled_features: Vec<u8>,
}

/// Whether the bit with the number `bit % 8` is set in a byte.
pub open spec fn bit_of(byte: u8, bit: nat) -> bool {
    byte & (1u8 << ((bit % 8) as u8)) != 0
}

/// Whether a bit is set in a mask. Beyond the end of the mask no bit is.
pub open spec fn bit_set(mask: Seq<u8>, bit: nat) -> bool {
    bit / 8 < mask.len() && bit_of(mask[(bit / 8) as int], bit)
}

/// The byte at an index of a mask, which is followed by zeros.
pub open spec fn byte_or_zero(mask: Seq<u8>, i: int) -> u8 {
    if i < mask.len() {
        mask[i]
    } else {
        0
    }
}

/// A mask with a bit set. It is filled up with zeros as far as needed.
pub open spec fn mask_with(mask: Seq<u8>, bit: nat) -> Seq<u8> {
    Seq::new(
        if mask.len() > bit / 8 {
            mask.len()
        } else {
            bit / 8 + 1
        },
        |i: int|
            if i == bit / 8 {
                byte_or_zero(mask, i) | (1u8 << ((bit % 8) as u8))
            } else {
                byte_or_zero(mask, i)
            },
    )
}

/// A mask with a bit cleared.
pub open spec fn mask_without(mask: Seq<u8>, bit: nat) -> Seq<u8> {
    if bit / 8 < mask.len() {
        mask.update(
            (bit / 8) as int,
            mask[(bit / 8) as int] & !(1u8 << ((bit % 8) as u8)),
        )
    } else {
        mask
    }
}

/// The bit that stands for a feature: the one with its number. A negative number stands for a bit
/// so high that no mask in use has it.
pub open spec fn bit_of_feature(feature: Feature) -> nat {
    feature.value as usize as nat
}

/// The feature that a bit stands for.
pub open spec fn feature_of_bit(bit: usize) -> Feature {
    Feature { value: bit as i32 }
}

/// The known features among the first `n` bits that are set, in the order of their bits.
pub open spec fn features_below(mask: Seq<u8>, known: Seq<Feature>, n: nat) -> Seq<Feature>
    decreases n,
{
    if n == 0 {
        seq![]
    } else {
        let bit = (n - 1) as nat;
        let before = features_below(mask, known, bit);
        if bit_set(mask, bit) && known.contains(feature_of_bit(bit as usize)) {
            before.push(feature_of_bit(bit as usize))
        } else {
            before
        }
    }
}

impl ControllingStrategy {
    /// Disables a feature.
    pub fn disable_feature(&mut self, feature: Feature)
        requires
            feature.value >= 0,
        ensures
            final(self).disabled_features@ == mask_with(
                old(self).disabled_features@,
                bit_of_feature(feature),
            ),
            bit_of_feature(feature) == feature.value,
    {
        let ghost mask = self.disabled_features@;
        let bit: usize = feature.value as usize;
        let byte_index: usize = bit / 8;
        let bit_offset: u8 = (bit % 8) as u8;
        while self.disabled_features.len() <= byte_index
            invariant
                self.disabled_features@.len() >= mask.len(),
                self.disabled_features@.len() <= mask.len() || self.disabled_features@.len()
                    <= byte_index + 1,
                forall|i: int|
                    0 <= i < self.disabled_features@.len() ==> self.disabled_features@[i]
                        == byte_or_zero(mask, i),
            decreases byte_index + 1 - self.disabled_features@.len(),
        {
            self.disabled_features.push(0);
        }
        let byte: u8 = self.disabled_features[byte_index] | (1u8 << bit_offset);
        self.disabled_features.set(byte_index, byte);
        assert(self.disabled_features@ =~= mask_with(mask, feature.value as nat));
    }

    /// Enables a feature. One with a negative number is never disabled.
    pub fn enable_feature(&mut self, feature: Feature)
        ensures
            final(self).disabled_features@ == mask_without(
                old(self).disabled_features@,
                bit_of_feature(feature),
            ),
            feature.value >= 0 ==> bit_of_feature(feature) == feature.value,
            feature.value < 0 && old(self).disabled_features@.len() <= NEGATIVE_FREE_LEN ==> final(
                self).disabled_features@ == old(self).disabled_features@,
    {
        proof {
            law_negative_numbers_have_no_bit(self.disabled_features@, feature);
        }
        let bit: usize = feature.value as usize;
        let byte_index: usize = bit / 8;
        let bit_offset: u8 = (bit % 8) as u8;
        if byte_index < self.disabled_features.len() {
            let byte: u8 = self.disabled_features[byte_index] & !(1u8 << bit_offset);
            self.disabled_features.set(byte_index, byte);
        }
    }

    /// Whether a feature is disabled. One with a negative number is not.
    pub fn is_feature_disabled(&self, feature: Feature) -> (disabled: bool)
        ensures
            disabled == bit_set(self.disabled_features@, bit_of_feature(feature)),
            feature.value >= 0 ==> bit_of_feature(feature) == feature.value,
            feature.value < 0 && self.disabled_features@.len() <= NEGATIVE_FREE_LEN ==> !disabled,
    {
        proof {
            law_negative_numbers_have_no_bit(self.disabled_features@, feature);
        }
        let bit: usize = feature.value as usize;
        let byte_index: usize = bit / 8;
        let bit_offset: u8 = (bit % 8) as u8;
        if byte_index >= self.disabled_features.len() {
            return false;
        }
        (self.disabled_features[byte_index] & (1u8 << bit_offset)) != 0
    }

    /// All known features that are disabled, in the order of their bits.
    pub fn get_disabled_features(&self, known: &[Feature]) -> (features: Vec<Feature>)
        requires
            self.disabled_features@.len() * 8 <= usize::MAX,
        ensures
            features@ == features_below(
                self.disabled_features@,
                known@,
                self.disabled_features@.len() * 8,
            ),
    {
        let mask = &self.disabled_features;
        let mut features: Vec<Feature> = Vec::new();
        let mut byte_index: usize = 0;
        while byte_index < mask.len()
            invariant
                byte_index <= mask@.len(),
                mask@.len() * 8 <= usize::MAX,
                features@ == features_below(mask@, known@, (byte_index * 8) as nat),
            decreases mask@.len() - byte_index,
        {
            let byte: u8 = mask[byte_index];
            let mut bit_offset: u8 = 0;
            while bit_offset < 8
                invariant
                    byte_index < mask@.len(),
                    mask@.len() * 8 <= usize::MAX,
                    byte == mask@[byte_index as int],
                    bit_offset <= 8,
                    features@ == features_below(
                        mask@,
                        known@,
                        (byte_index * 8 + bit_offset) as nat,
                    ),
                decreases 8 - bit_offset,
            {
                let bit: usize = byte_index * 8 + bit_offset as usize;
                assert(bit / 8 == byte_index && bit % 8 == bit_offset);
                if (byte & (1u8 << bit_offset)) != 0 {
                    let feature = Feature {
                        value: #[verifier::truncate]
                        (bit as i32),
                    };
                    if contains_feature(known, feature) {
                        features.push(feature);
                    }
                }
                bit_offset += 1;
            }
            byte_index += 1;
        }
        features
    }
}

/// Whether a feature is in a list.
fn contains_feature(features: &[Feature], feature: Feature) -> (found: bool)
    ensures
        found == features@.contains(feature),
{
    let mut i: usize = 0;
    while i < features.len()
        invariant
            i <= features@.len(),
            forall|j: int| 0 <= j < i ==> features@[j] != feature,
        decreases features@.len() - i,
    {
        if features[i] == feature {
            assert(features@[i as int] == feature);
            return true;
        }
        i += 1;
    }
    false
}

proof fn lemma_or_bit(byte: u8, bit: u8, other: u8)
    requires
        bit < 8,
        other < 8,
    ensures
        (byte | (1u8 << bit)) & (1u8 << bit) != 0,
        bit != other ==> (byte | (1u8 << bit)) & (1u8 << other) == byte & (1u8 << other),
        (byte & !(1u8 << bit)) & (1u8 << bit) == 0,
        bit != other ==> (byte & !(1u8 << bit)) & (1u8 << other) == byte & (1u8 << other),
        0u8 & (1u8 << other) == 0,
{
    assert((byte | (1u8 << bit)) & (1u8 << bit) != 0 && (bit != other ==> (byte | (1u8 << bit)) & (
    1u8 << other) == byte & (1u8 << other)) && (byte & !(1u8 << bit)) & (1u8 << bit) == 0 && (bit
        != other ==> (byte & !(1u8 << bit)) & (1u8 << other) == byte & (1u8 << other)) && 0u8 & (
    1u8 << other) == 0) by (bit_vector)
        requires
            bit < 8,
            other < 8,
    ;
}

/// Disabling a feature disables it and changes no other.
pub proof fn law_disable_sets_one_bit(mask: Seq<u8>, bit: nat, other: nat)
    ensures
        bit_set(mask_with(mask, bit), bit),
        other != bit ==> bit_set(mask_with(mask, bit), other) == bit_set(mask, other),
{
    let i = (bit / 8) as int;
    lemma_or_bit(byte_or_zero(mask, i), (bit % 8) as u8, (other % 8) as u8);
    lemma_or_bit(0, (bit % 8) as u8, (other % 8) as u8);
    if other != bit && other / 8 == bit / 8 {
        assert(other % 8 != bit % 8);
    }
}

/// Enabling a feature enables it and changes no other.
pub proof fn law_enable_clears_one_bit(mask: Seq<u8>, bit: nat, other: nat)
    ensures
        !bit_set(mask_without(mask, bit), bit),
        other != bit ==> bit_set(mask_without(mask, bit), other) == bit_set(mask, other),
{
    if bit / 8 < mask.len() {
        lemma_or_bit(mask[(bit / 8) as int], (bit % 8) as u8, (other % 8) as u8);
        if other != bit && other / 8 == bit / 8 {
            assert(other % 8 != bit % 8);
        }
    }
}

/// No mask in use has a bit for a feature with a negative number: such a feature is not disabled,
/// and enabling it changes nothing.
pub proof fn law_negative_numbers_have_no_bit(mask: Seq<u8>, feature: Feature)
    ensures
        feature.value < 0 && mask.len() <= NEGATIVE_FREE_LEN ==> {
            &&& !bit_set(mask, bit_of_feature(feature))
            &&& mask_without(mask, bit_of_feature(feature)) == mask
        },
{
    let value: i32 = feature.value;
    assert(value < 0 ==> value as usize >= 0x8000_0000) by (bit_vector);
}

/// The list of disabled features goes by their numbers, each of which it holds once, as long as
/// every bit of the mask has a number that a feature can have.
pub proof fn law_disabled_list_is_increasing(mask: Seq<u8>, known: Seq<Feature>, i: int, j: int)
    requires
        mask.len() * 8 <= i32::MAX + 1,
        0 <= i < j < features_below(mask, known, mask.len() * 8).len(),
    ensures
        features_below(mask, known, mask.len() * 8)[i].value < features_below(
            mask,
            known,
            mask.len() * 8,
        )[j].value,
{
    lemma_list_is_increasing(mask, known, mask.len() * 8);
}

proof fn lemma_list_is_increasing(mask: Seq<u8>, known: Seq<Feature>, n: nat)
    requires
        n <= i32::MAX + 1,
    ensures
        increasing_below(features_below(mask, known, n), n as int),
    decreases n,
{
    if n > 0 {
        let bit = (n - 1) as nat;
        lemma_list_is_increasing(mask, known, bit);
        assert(feature_of_bit(bit as usize).value == bit);
    }
}

/// Whether the numbers of some features increase, and are below a limit.
spec fn increasing_below(features: Seq<Feature>, limit: int) -> bool {
    &&& forall|i: int| 0 <= i < features.len() ==> (#[trigger] features[i]).value < limit
    &&& forall|i: int, j: int|
        0 <= i < j < features.len() ==> (#[trigger] features[i]).value < (
        #[trigger] features[j]).value
}

/// The list of disabled features holds exactly the known features that are disabled, as long as
/// every bit of the mask has a number that a feature can have.
pub proof fn law_disabled_list_is_exact(mask: Seq<u8>, known: Seq<Feature>, feature: Feature)
    requires
        mask.len() * 8 <= i32::MAX + 1,
    ensures
        features_below(mask, known, mask.len() * 8).contains(feature) <==> known.contains(feature)
            && feature.value >= 0 && bit_set(mask, feature.value as nat),
{
    lemma_list_is_exact(mask, known, mask.len() * 8, feature);
    if feature.value >= 0 && bit_set(mask, feature.value as nat) {
        assert(feature.value < mask.len() * 8);
    }
}

proof fn lemma_list_is_exact(mask: Seq<u8>, known: Seq<Feature>, n: nat, feature: Feature)
    requires
        n <= i32::MAX + 1,
    ensures
        features_below(mask, known, n).contains(feature) <==> known.contains(feature) && 0
            <= feature.value < n && bit_set(mask, feature.value as nat),
    decreases n,
{
    if n > 0 {
        let bit = (n - 1) as nat;
        let before = features_below(mask, known, bit);
        lemma_list_is_exact(mask, known, bit, feature);
        assert(feature_of_bit(bit as usize).value == bit);
        let after = features_below(mask, known, n);
        if after != before {
            if before.contains(feature) {
                let i = choose|i: int| 0 <= i < before.len() && before[i] == feature;
                assert(after[i] == feature);
            }
            assert(after[before.len() as int] == feature_of_bit(bit as usize));
            if after.contains(feature) {
                let i = choose|i: int| 0 <= i < after.len() && after[i] == feature;
                if i < before.len() {
                    assert(before[i] == feature);
                }
            }
        }
    }
}

/// A feature is disabled by the bit whose weight in the byte is the power of two of its number modulo
/// eight, in the byte that its number divided by eight counts off.
pub proof fn law_bits_are_counted_from_the_lowest(mask: Seq<u8>, bit: nat)
    ensures
        bit_set(mask, bit) <==> bit / 8 < mask.len() && (mask[(bit / 8) as int] / (if bit % 8 == 0 {
            1u8
        } else if bit % 8 == 1 {
            2
        } else if bit % 8 == 2 {
            4
        } else if bit % 8 == 3 {
            8
        } else if bit % 8 == 4 {
            16
        } else if bit % 8 == 5 {
            32
        } else if bit % 8 == 6 {
            64
        } else {
            128
        })) % 2 == 1,
{
    if bit / 8 < mask.len() {
        let byte = mask[(bit / 8) as int];
        assert(byte & (1u8 << 0u8) != 0 <==> (byte / 1u8) % 2 == 1) by (bit_vector);
        assert(byte & (1u8 << 1u8) != 0 <==> (byte / 2u8) % 2 == 1) by (bit_vector);
        assert(byte & (1u8 << 2u8) != 0 <==> (byte / 4u8) % 2 == 1) by (bit_vector);
        assert(byte & (1u8 << 3u8) != 0 <==> (byte / 8u8) % 2 == 1) by (bit_vector);
        assert(byte & (1u8 << 4u8) != 0 <==> (byte / 16u8) % 2 == 1) by (bit_vector);
        assert(byte & (1u8 << 5u8) != 0 <==> (byte / 32u8) % 2 == 1) by (bit_vector);
        assert(byte & (1u8 << 6u8) != 0 <==> (byte / 64u8) % 2 == 1) by (bit_vector);
        assert(byte & (1u8 << 7u8) != 0 <==> (byte / 128u8) % 2 == 1) by (bit_vector);
    }
}

/// A mask grows only as far as a feature's bit needs, with zeros, and never shrinks; all its other
/// bytes stay as they are.
pub proof fn law_masks_grow_only_as_needed(mask: Seq<u8>, bit: nat, i: int)
    ensures
        mask_with(mask, bit).len() == (if bit / 8 < mask.len() {
            mask.len()
        } else {
            bit / 8 + 1
        }),
        mask_without(mask, bit).len() == mask.len(),
        0 <= i < mask.len() && i != bit / 8 ==> mask_with(mask, bit)[i] == mask[i] && mask_without(
            mask,
            bit,
        )[i] == mask[i],
        mask.len() <= i < bit / 8 ==> mask_with(mask, bit)[i] == 0,
{
}

} // verus!
