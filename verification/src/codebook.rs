//! Codebooks: centroid tables for table-lookup quantization.
//!
//! A centroid is a 32-bit floating-point number, held here by its bit pattern. Codebooks compare
//! and hash by these patterns, so two of them are equal exactly when their tables are, whatever
//! the numbers (a NaN is equal to itself here).

use vstd::prelude::*;

use crate::scheme::QuantValue;

verus! {

/// TQ2 (`Q2F`) codebook: 4 Lloyd-Max levels for a unit-variance Gaussian.
pub const Q2F: [u32; 4] = [
    0xbfc1_54ca, 0xbee7_d567, 0x3ee7_d567, 0x3fc1_54ca,
];

/// TQ4 (`Q4F`) codebook: 16 Lloyd-Max levels for a unit-variance Gaussian.
pub const Q4F: [u32; 16] = [
    0xc02e_e2c1, 0xc004_6ac6, 0xbfcf_1c22, 0xbfa0_cc2d,
    0xbf71_3d32, 0xbf28_215c, 0xbec6_ae3a, 0xbe03_79fb,
    0x3e03_79fb, 0x3ec6_ae3a, 0x3f28_215c, 0x3f71_3d32,
    0x3fa0_cc2d, 0x3fcf_1c22, 0x4004_6ac6, 0x402e_e2c1,
];

/// TQ6 (`Q6F`) codebook: 64 Lloyd-Max levels for a unit-variance Gaussian.
pub const Q6F: [u32; 64] = [
    0xc06f_5776, 0xc04f_1311, 0xc03a_60c3, 0xc02a_ac11,
    0xc01d_cbe3, 0xc012_c1ca, 0xc009_0288, 0xc000_392d,
    0xbff0_5bc4, 0xbfe1_73b0, 0xbfd3_81dc, 0xbfc6_5c14,
    0xbfb9_e1cc, 0xbfad_f953, 0xbfa2_8df9, 0xbf97_8ec9,
    0xbf8c_eda5, 0xbf82_9ea7, 0xbf71_2f40, 0xbf5d_9f86,
    0xbf4a_7eba, 0xbf37_bf42, 0xbf25_54f7, 0xbf13_34e5,
    0xbf01_5512, 0xbedf_58a6, 0xbebc_6447, 0xbe99_bd11,
    0xbe6e_a7cd, 0xbe2a_34ae, 0xbdcc_09be, 0xbd07_f4b9,
    0x3d07_f4b9, 0x3dcc_09be, 0x3e2a_34ae, 0x3e6e_a7cd,
    0x3e99_bd11, 0x3ebc_6447, 0x3edf_58a6, 0x3f01_5512,
    0x3f13_34e5, 0x3f25_54f7, 0x3f37_bf42, 0x3f4a_7eba,
    0x3f5d_9f86, 0x3f71_2f40, 0x3f82_9ea7, 0x3f8c_eda5,
    0x3f97_8ec9, 0x3fa2_8df9, 0x3fad_f953, 0x3fb9_e1cc,
    0x3fc6_5c14, 0x3fd3_81dc, 0x3fe1_73b0, 0x3ff0_5bc4,
    0x4000_392d, 0x4009_0288, 0x4012_c1ca, 0x401d_cbe3,
    0x402a_ac11, 0x403a_60c3, 0x404f_1311, 0x406f_5776,
];

/// A codebook (centroid table): the bit patterns of the centroids, by code.
#[derive(Clone, Copy)]
pub struct Codebook(pub &'static [u32]);

impl View for Codebook {
    type V = Seq<u32>;

    open spec fn view(&self) -> Seq<u32> {
        self.0@
    }
}

/// The centroids that codes of `value` stand for. Values that are not looked up in a table have
/// none.
pub open spec fn centroids(value: QuantValue) -> Seq<u32> {
    match value {
        QuantValue::Q2F => Q2F@,
        QuantValue::Q4F => Q4F@,
        QuantValue::Q6F => Q6F@,
        _ => Seq::empty(),
    }
}

/// Where a bit pattern stands in the order of the finite numbers: the pattern of a number's
/// magnitude grows with the magnitude, and the top bit is the sign.
pub open spec fn order_key(bits: u32) -> int {
    if bits < 0x8000_0000 {
        bits as int
    } else {
        0x8000_0000 - bits
    }
}

impl Codebook {
    /// The words by which a codebook is hashed: the bit pattern of each centroid, in order.
    pub fn hash_words(&self) -> (words: Vec<u32>)
        ensures
            words@ == self@,
    {
        let mut words: Vec<u32> = Vec::new();
        let mut i: usize = 0;
        while i < self.0.len()
            invariant
                i <= self@.len(),
                words@ == self@.take(i as int),
            decreases self@.len() - i,
        {
            words.push(self.0[i]);
            i += 1;
            assert(words@ =~= self@.take(i as int));
        }
        assert(words@ =~= self@);
        words
    }
}

impl PartialEq for Codebook {
    /// Codebooks are equal when their tables are, pattern by pattern.
    fn eq(&self, other: &Self) -> (r: bool) {
        let a = self.0;
        let b = other.0;
        if a.len() != b.len() {
            return false;
        }
        let mut i: usize = 0;
        while i < a.len()
            invariant
                a@ == self@,
                b@ == other@,
                i <= a@.len() == b@.len(),
                forall|j: int| 0 <= j < i ==> a@[j] == b@[j],
            decreases a@.len() - i,
        {
            if a[i] != b[i] {
                return false;
            }
            i += 1;
        }
        assert(a@ =~= b@);
        true
    }
}

impl Eq for Codebook {

}

impl vstd::std_specs::cmp::PartialEqSpecImpl for Codebook {
    open spec fn obeys_eq_spec() -> bool {
        true
    }

    open spec fn eq_spec(&self, other: &Self) -> bool {
        self@ == other@
    }
}

/// Centroid table for a table-codebook `value`: the canonical TQ codebooks, so that the table
/// lives in one place. Linear (`Q8F`), symmetric and floating-point values read no centroid
/// table, so they get an empty placeholder.
pub fn codebook_for(value: QuantValue) -> (r: Codebook)
    ensures
        r@ == centroids(value),
{
    match value {
        QuantValue::Q2F => Codebook(&Q2F),
        QuantValue::Q4F => Codebook(&Q4F),
        QuantValue::Q6F => Codebook(&Q6F),
        _ => Codebook(&[]),
    }
}

/// A table has one centroid for each code that the value can hold, or none at all.
pub proof fn law_one_centroid_per_code(value: QuantValue)
    ensures
        centroids(value).len() == 0 || centroids(value).len() == vstd::arithmetic::power2::pow2(
            value.bits(),
        ),
{
    vstd::arithmetic::power2::lemma2_to64();
}

/// Each centroid lies below the next.
proof fn lemma_neighbours_rise(value: QuantValue)
    ensures
        forall|i: int|
            0 <= i < centroids(value).len() - 1 ==> order_key(#[trigger] centroids(value)[i])
                < order_key(centroids(value)[i + 1]),
{
    assert(forall|i: int|
        0 <= i < 3 ==> order_key(#[trigger] Q2F@[i]) < order_key(Q2F@[i + 1]));
    assert(forall|i: int|
        0 <= i < 15 ==> order_key(#[trigger] Q4F@[i]) < order_key(Q4F@[i + 1]));
    assert(forall|i: int|
        0 <= i < 63 ==> order_key(#[trigger] Q6F@[i]) < order_key(Q6F@[i + 1]));
}

/// The centroids of a table rise with the code.
pub proof fn law_centroids_rise(value: QuantValue, i: int, j: int)
    requires
        0 <= i < j < centroids(value).len(),
    ensures
        order_key(centroids(value)[i]) < order_key(centroids(value)[j]),
    decreases j - i,
{
    lemma_neighbours_rise(value);
    assert(order_key(centroids(value)[i]) < order_key(centroids(value)[i + 1]));
    if i + 1 < j {
        law_centroids_rise(value, i + 1, j);
    }
}

/// A table is symmetric around zero: the centroid of each code is the negative of the centroid
/// of the code as far from the other end.
pub proof fn law_centroids_mirror(value: QuantValue, i: int)
    requires
        0 <= i < centroids(value).len(),
    ensures
        order_key(centroids(value)[i]) == -order_key(
            centroids(value)[centroids(value).len() - 1 - i],
        ),
{
    assert(forall|i: int| 0 <= i < 4 ==> order_key(#[trigger] Q2F@[i]) == -order_key(Q2F@[3 - i]));
    assert(forall|i: int|
        0 <= i < 16 ==> order_key(#[trigger] Q4F@[i]) == -order_key(Q4F@[15 - i]));
    assert(forall|i: int|
        0 <= i < 64 ==> order_key(#[trigger] Q6F@[i]) == -order_key(Q6F@[63 - i]));
}

/// Every centroid is a finite number: its magnitude lies below the pattern of infinity.
pub proof fn law_centroids_finite(value: QuantValue, i: int)
    requires
        0 <= i < centroids(value).len(),
    ensures
        -0x7f80_0000 < order_key(centroids(value)[i]) < 0x7f80_0000,
{
    assert(forall|i: int| 0 <= i < 4 ==> -0x7f80_0000 < order_key(#[trigger] Q2F@[i]) < 0x7f80_0000);
    assert(forall|i: int|
        0 <= i < 16 ==> -0x7f80_0000 < order_key(#[trigger] Q4F@[i]) < 0x7f80_0000);
    assert(forall|i: int|
        0 <= i < 64 ==> -0x7f80_0000 < order_key(#[trigger] Q6F@[i]) < 0x7f80_0000);
}

/// Codebooks compare equal exactly if they have the same centroids, all of them in order.
pub proof fn law_equal_codebooks_have_equal_centroids(a: Codebook, b: Codebook)
    ensures
        vstd::std_specs::cmp::PartialEqSpec::eq_spec(&a, &b) <==> a.0@.len() == b.0@.len()
            && forall|i: int| 0 <= i < a.0@.len() ==> #[trigger] a.0@[i] == b.0@[i],
{
    if a.0@.len() == b.0@.len() && forall|i: int|
        0 <= i < a.0@.len() ==> #[trigger] a.0@[i] == b.0@[i] {
        assert(a.0@ =~= b.0@);
    }
}

/// The codebook of a value has a centroid for each code or none at all, and they rise. Its words
/// are its centroids in order.
pub proof fn law_codebook_words_rise(value: QuantValue, r: Codebook, words: Vec<u32>, i: int, j: int)
    requires
        call_ensures(codebook_for, (value,), r),
        call_ensures(Codebook::hash_words, (&r,), words),
        0 <= i < j < words@.len(),
    ensures
        words@.len() == vstd::arithmetic::power2::pow2(value.bits()),
        order_key(words@[i]) < order_key(words@[j]),
        words@ == r.0@,
{
    law_one_centroid_per_code(value);
    law_centroids_rise(value, i, j);
}

} // verus!
