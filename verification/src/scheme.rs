//! Quantization schemes: how quantized values are represented, stored and grouped.

use vstd::prelude::*;

use crate::arith::{divides, is_lcm, lcm};
use crate::block::BlockSize;
use crate::fmt::{rht_text, text_taken, write_rht, write_text};

verus! {

/// Describes a quantization scheme/configuration.
#[derive(Clone, Copy, Debug, Hash, PartialEq, Eq, PartialOrd, Ord)]
pub struct QuantScheme {
    /// The logical data type of quantized input values (e.g., `QInt8`).
    ///
    /// This defines how values are interpreted during computation, independent of how they're
    /// stored.
    pub value: QuantValue,
    /// Precision used for quantization parameters (e.g., scale and biases).
    pub param: QuantParam,
    /// Data type used for storing quantized values.
    pub store: QuantStore,
    /// Granularity level of quantization (e.g., per-tensor).
    pub level: QuantLevel,
    /// Quantization mode (e.g., symmetric).
    pub mode: QuantMode,
    /// Activation-side rotation applied before the contraction. The weights are stored
    /// pre-rotated; the forward transform is folded onto the activation at matmul time.
    pub rotation: Rotation,
}

/// Activation-side rotation folded into the quant-matmul.
#[derive(Clone, Copy, Hash, PartialEq, Eq, Structural, PartialOrd, Ord)]
pub enum Rotation {
    /// No rotation (the default: plain dequantize-and-matmul).
    NoRotation,
    /// Forward random-Hadamard transform (RHT) applied to each `block`-sized span of the
    /// activation before the contraction.
    Rht {
        /// Hadamard block size (e.g. 32).
        block: u32,
    },
}

/// Level or granularity of quantization.
#[derive(Clone, Copy, Debug, Hash, PartialEq, Eq, PartialOrd, Ord)]
pub enum QuantLevel {
    /// Quantize the whole tensor using a single tensor.
    Tensor,
    /// Quantize a tensor using multiple blocks.
    Block(BlockSize),
}

/// Data type used to represent quantized values.
#[derive(Clone, Copy, Debug, Hash, PartialEq, Eq, Structural, PartialOrd, Ord)]
pub enum QuantValue {
    /// 8-bit quantization with full range.
    Q8F,
    /// 8-bit floating point, e5m2 format.
    E5M2,
    /// 8-bit floating point, e4m3 format.
    E4M3,
    /// 6-bit quantization with full range. Codes pack densely (no even u32 division), so this
    /// requires a dense store ([`QuantStore::PackedU32Dense`]).
    Q6F,
    /// 4-bit quantization with full range.
    Q4F,
    /// 4-bit floating point, e2m1 format.
    E2M1,
    /// 2-bit quantization with full range.
    Q2F,
    /// 8-bit quantization with symmetric range.
    Q8S,
    /// 4-bit quantization with symmetric range.
    Q4S,
    /// 2-bit quantization with symmetric range.
    Q2S,
}

/// Data type used to store quantized values.
#[derive(Clone, Copy, Debug, Hash, PartialEq, Eq, Structural, PartialOrd, Ord)]
pub enum QuantStore {
    /// Native quantization doesn't require packing and unpacking.
    Native,
    /// Store packed quantized values in a natively supported packing format (i.e. e2m1x2).
    /// Argument is the dimension the tensor is packed on, starting from the innermost dimension.
    PackedNative(usize),
    /// Store packed quantized values in a 4-byte unsigned integer.
    /// Argument is the dimension the tensor is packed on, starting from the innermost dimension.
    PackedU32(usize),
    /// Densely bit-pack codes into a u32 stream: code `j` occupies bits
    /// `[j*size_bits, (j+1)*size_bits)`. For widths that don't divide 32 evenly (e.g. 6-bit),
    /// codes straddle word boundaries. One "unit" is `lcm(size_bits, 32)` bits = `lcm/32` u32
    /// words holding `lcm/size_bits` codes with no straddle across the unit boundary.
    /// Argument is the dimension the tensor is packed on, starting from the innermost dimension.
    PackedU32Dense(usize),
}

/// Strategy used to quantize values.
#[derive(Clone, Copy, Debug, Hash, PartialEq, Eq, Structural, PartialOrd, Ord)]
pub enum QuantMode {
    /// Symmetric or scale quantization.
    Symmetric,
    /// Codebook (lookup-table) quantization: the stored value is an index into a per-format
    /// centroid table, and dequant is `centroid[index] * scale` (e.g. Lloyd-Max codebooks).
    /// Unlike [`Symmetric`](Self::Symmetric) the stored bits are an unsigned index, not a signed
    /// integer.
    Codebook,
}

/// Quantization floating-point precision.
///
/// This is used to represent the floating-point precision of quantization parameters like the
/// scale(s) or the accumulation precision used during operations like matrix multiplication.
#[derive(Clone, Copy, Debug, Hash, PartialEq, Eq, Structural, PartialOrd, Ord)]
pub enum QuantParam {
    /// Full precision.
    F32,
    /// Half precision.
    F16,
    /// bfloat16 precision.
    BF16,
    /// unsigned floating point, e8m0 format.
    UE8M0,
    /// unsigned floating point, e4m3 format.
    UE4M3,
}

impl core::fmt::Debug for Rotation {
    /// The rotation as `None`, or as `Rht { block: 32 }` in the way that the formatter asks for.
    fn fmt(&self, f: &mut core::fmt::Formatter<'_>) -> (r: core::fmt::Result)
        ensures
            r is Ok ==> text_taken(*final(f)) == text_taken(*old(f)) + match *self {
                Rotation::NoRotation => "None"@,
                Rotation::Rht { block } => rht_text(*old(f), block),
            },
    {
        match self {
            Rotation::NoRotation => write_text(f, "None"),
            Rotation::Rht { block } => write_rht(f, *block),
        }
    }
}

impl Default for Rotation {
    fn default() -> (r: Self)
        ensures
            r == Rotation::NoRotation,
    {
        Rotation::NoRotation
    }
}

impl Default for QuantScheme {
    /// Eight full-range bits, packed in words along the innermost dimension, one scale of full
    /// precision for the whole tensor, and no rotation.
    fn default() -> (r: Self)
        ensures
            r == (QuantScheme {
                value: QuantValue::Q8F,
                param: QuantParam::F32,
                store: QuantStore::PackedU32(0),
                level: QuantLevel::Tensor,
                mode: QuantMode::Symmetric,
                rotation: Rotation::NoRotation,
            }),
    {
        QuantScheme {
            value: QuantValue::Q8F,
            param: QuantParam::F32,
            store: QuantStore::PackedU32(0),
            level: QuantLevel::Tensor,
            mode: QuantMode::Symmetric,
            rotation: Rotation::NoRotation,
        }
    }
}

impl QuantLevel {
    /// Converting constructor for [`QuantLevel::Block`]. The number of values must be
    /// `<= BlockSize::MAX_DIMS`.
    pub fn block(values: &[u8]) -> (r: Self)
        requires
            values@.len() <= BlockSize::MAX_DIMS,
        ensures
            r matches QuantLevel::Block(size) && size@ == values@,
    {
        QuantLevel::Block(BlockSize::new(values))
    }
}

impl QuantValue {
    /// How many bits a value takes.
    pub open spec fn bits(self) -> nat {
        match self {
            QuantValue::Q8F | QuantValue::Q8S | QuantValue::E4M3 | QuantValue::E5M2 => 8,
            QuantValue::Q6F => 6,
            QuantValue::Q4F | QuantValue::Q4S | QuantValue::E2M1 => 4,
            QuantValue::Q2F | QuantValue::Q2S => 2,
        }
    }

    /// How many values the native representation holds.
    pub open spec fn packing(self) -> nat {
        if self == QuantValue::E2M1 {
            2
        } else {
            1
        }
    }

    /// The least and the greatest value.
    pub open spec fn bounds(self) -> (int, int) {
        match self {
            QuantValue::Q8F => (-128, 127),
            QuantValue::Q6F => (-32, 31),
            QuantValue::Q4F => (-8, 7),
            QuantValue::Q2F => (-2, 1),
            QuantValue::Q8S => (-127, 127),
            QuantValue::Q4S => (-7, 7),
            QuantValue::Q2S => (-1, 1),
            QuantValue::E4M3 => (-448, 448),
            QuantValue::E5M2 => (-57344, 57344),
            QuantValue::E2M1 => (-6, 6),
        }
    }

    /// The range of values is symmetric around zero.
    pub open spec fn symmetric(self) -> bool {
        self.bounds().0 == -self.bounds().1
    }

    /// The value is a floating-point format.
    pub open spec fn floating(self) -> bool {
        self == QuantValue::E4M3 || self == QuantValue::E5M2 || self == QuantValue::E2M1
    }

    /// Returns the size of the quantization input type in bits.
    pub fn size_bits(&self) -> (r: usize)
        ensures
            r == self.bits(),
    {
        match self {
            QuantValue::Q8F | QuantValue::Q8S | QuantValue::E4M3 | QuantValue::E5M2 => 8,
            QuantValue::Q6F => 6,
            QuantValue::Q4F | QuantValue::Q4S | QuantValue::E2M1 => 4,
            QuantValue::Q2F | QuantValue::Q2S => 2,
        }
    }

    /// Packing factor for the native representation used for intermediate values. If > 1, values
    /// should always be processed in `native_packing` sized chunks.
    pub fn native_packing(&self) -> (r: usize)
        ensures
            r == self.packing(),
    {
        match self {
            QuantValue::E2M1 => 2,
            _ => 1,
        }
    }

    /// The possible range of values allowed by the quant value: its least and its greatest value,
    /// all of which are whole numbers.
    pub fn range(&self) -> (r: (i32, i32))
        ensures
            (r.0 as int, r.1 as int) == self.bounds(),
    {
        match self {
            QuantValue::Q8F => (-128, 127),
            QuantValue::Q6F => (-32, 31),
            QuantValue::Q4F => (-8, 7),
            QuantValue::Q2F => (-2, 1),
            QuantValue::Q8S => (-127, 127),
            QuantValue::Q4S => (-7, 7),
            QuantValue::Q2S => (-1, 1),
            QuantValue::E4M3 => (-448, 448),
            QuantValue::E5M2 => (-57344, 57344),
            QuantValue::E2M1 => (-6, 6),
        }
    }

    /// If the range of values is symmetric around zero.
    pub fn is_symmetric(&self) -> (r: bool)
        ensures
            r == self.symmetric(),
    {
        match self {
            QuantValue::Q8F | QuantValue::Q6F | QuantValue::Q4F | QuantValue::Q2F => false,
            QuantValue::Q8S
            | QuantValue::Q4S
            | QuantValue::Q2S
            | QuantValue::E4M3
            | QuantValue::E5M2
            | QuantValue::E2M1 => true,
        }
    }
}

/// A dimension after dimensions `dim0` and `dim1` have changed places.
pub open spec fn swapped(dim: usize, dim0: usize, dim1: usize) -> usize {
    if dim == dim0 {
        dim1
    } else if dim == dim1 {
        dim0
    } else {
        dim
    }
}

impl QuantStore {
    /// How many bits an element of the store takes, for a given value type.
    pub open spec fn bits(self, value: QuantValue) -> nat {
        match self {
            QuantStore::Native => value.bits(),
            QuantStore::PackedNative(_) => value.bits() * value.packing(),
            QuantStore::PackedU32(_) => 32,
            QuantStore::PackedU32Dense(_) => if value.bits() == 6 {
                96
            } else {
                32
            },
        }
    }

    /// The dimension that the tensor is packed on.
    pub open spec fn dim(self) -> Option<usize> {
        match self {
            QuantStore::Native => None,
            QuantStore::PackedNative(d) | QuantStore::PackedU32(d) | QuantStore::PackedU32Dense(
                d,
            ) => Some(d),
        }
    }

    /// The store with its packing dimension, if it has one, swapped along.
    pub open spec fn dims_swapped(self, dim0: usize, dim1: usize) -> QuantStore {
        match self {
            QuantStore::Native => QuantStore::Native,
            QuantStore::PackedNative(d) => QuantStore::PackedNative(swapped(d, dim0, dim1)),
            QuantStore::PackedU32(d) => QuantStore::PackedU32(swapped(d, dim0, dim1)),
            QuantStore::PackedU32Dense(d) => QuantStore::PackedU32Dense(swapped(d, dim0, dim1)),
        }
    }

    /// Returns the size of an element of the store in bits. An element of a dense store is a
    /// unit: the smallest run of u32 words that holds a whole number of codes.
    pub fn size_bits(&self, value: &QuantValue) -> (r: usize)
        ensures
            r == self.bits(*value),
            self is PackedU32Dense ==> is_lcm(value.bits(), 32, r as nat),
    {
        match self {
            QuantStore::Native => value.size_bits(),
            QuantStore::PackedNative(_) => {
                proof {
                    assert(value.bits() * value.packing() <= 16) by (nonlinear_arith)
                        requires
                            value.bits() <= 8,
                            value.packing() <= 2,
                    ;
                }
                value.size_bits() * value.native_packing()
            },
            QuantStore::PackedU32(_) => 32,
            QuantStore::PackedU32Dense(_) => {
                let bits = value.size_bits();
                proof {
                    assert(divides(2, 96) && divides(4, 96) && divides(6, 96) && divides(8, 96));
                    assert(bits == 2 || bits == 4 || bits == 6 || bits == 8);
                    assert(divides(32, 96));
                }
                let unit = lcm(bits, 32);
                proof {
                    lemma_dense_unit(*value, unit as nat);
                }
                unit
            },
        }
    }

    /// Returns the dimension that the tensor is packed on, if it is packed.
    pub fn packing_dim(&self) -> (r: Option<usize>)
        ensures
            r == self.dim(),
    {
        match self {
            QuantStore::Native => None,
            QuantStore::PackedNative(d) | QuantStore::PackedU32(d) | QuantStore::PackedU32Dense(
                d,
            ) => Some(*d),
        }
    }
}

/// A dense unit is three words for 6-bit codes and one word for all others.
proof fn lemma_dense_unit(value: QuantValue, unit: nat)
    requires
        is_lcm(value.bits(), 32, unit),
    ensures
        unit == QuantStore::PackedU32Dense(0).bits(value),
{
    let expected = QuantStore::PackedU32Dense(0).bits(value);
    assert(divides(2, 32) && divides(4, 32) && divides(8, 32) && divides(6, 96));
    assert(divides(value.bits(), expected));
    assert(divides(32, expected));
    assert(divides(unit, expected));
    assert(unit <= expected) by {
        if unit > expected {
            vstd::arithmetic::div_mod::lemma_small_mod(expected, unit);
        }
    }
    assert(unit > 0 && unit % 32 == 0);
    if value.bits() == 6 {
        assert(unit % 6 == 0);
    }
}

impl QuantScheme {
    /// How many bits an element of the store takes.
    pub open spec fn stored_bits(self) -> nat {
        self.store.bits(self.value)
    }

    /// How many values an element of the store holds.
    pub open spec fn quants(self) -> nat {
        self.stored_bits() / self.value.bits()
    }

    /// How many words hold one element of the store, where it is made of words.
    pub open spec fn words(self) -> nat {
        match self.store {
            QuantStore::PackedU32(_) | QuantStore::PackedU32Dense(_) => self.stored_bits() / 32,
            QuantStore::Native | QuantStore::PackedNative(_) => 1,
        }
    }

    /// Set the quantization level.
    pub fn with_level(self, level: QuantLevel) -> (r: Self)
        ensures
            r == (QuantScheme { level, ..self }),
    {
        QuantScheme { level, ..self }
    }

    /// Set the quantization mode.
    pub fn with_mode(self, mode: QuantMode) -> (r: Self)
        ensures
            r == (QuantScheme { mode, ..self }),
    {
        QuantScheme { mode, ..self }
    }

    /// Set the data type used for quantized values.
    pub fn with_value(self, value: QuantValue) -> (r: Self)
        ensures
            r == (QuantScheme { value, ..self }),
    {
        QuantScheme { value, ..self }
    }

    /// Set the data type used to store quantized values.
    pub fn with_store(self, store: QuantStore) -> (r: Self)
        ensures
            r == (QuantScheme { store, ..self }),
    {
        QuantScheme { store, ..self }
    }

    /// Set the precision used for quantization parameters.
    pub fn with_param(self, param: QuantParam) -> (r: Self)
        ensures
            r == (QuantScheme { param, ..self }),
    {
        QuantScheme { param, ..self }
    }

    /// Set the activation-side rotation folded into the quant-matmul.
    pub fn with_rotation(self, rotation: Rotation) -> (r: Self)
        ensures
            r == (QuantScheme { rotation, ..self }),
    {
        QuantScheme { rotation, ..self }
    }

    /// Returns the size of the quantization storage type in bits.
    pub fn size_bits_stored(&self) -> (r: usize)
        ensures
            r == self.stored_bits(),
    {
        self.store.size_bits(&self.value)
    }

    /// Returns the size of the quantization value type in bits.
    pub fn size_bits_value(&self) -> (r: usize)
        ensures
            r == self.value.bits(),
    {
        self.value.size_bits()
    }

    /// Returns the number of quantized values stored in a single element.
    pub fn num_quants(&self) -> (r: usize)
        ensures
            r == self.quants(),
    {
        self.size_bits_stored() / self.value.size_bits()
    }

    /// Number of `u32` storage words holding one dense unit (one `num_quants` group). For
    /// [`QuantStore::PackedU32`] this is always 1; for [`QuantStore::PackedU32Dense`] it is
    /// `lcm(value_bits, 32) / 32` (e.g. 3 for 6-bit codes, where 16 codes straddle 3 words).
    /// Stores that are not made of words count one element per unit.
    pub fn storage_words_per_unit(&self) -> (r: usize)
        ensures
            r == self.words(),
    {
        match self.store {
            QuantStore::PackedU32(_) | QuantStore::PackedU32Dense(_) => {
                self.size_bits_stored() / 32
            },
            QuantStore::Native | QuantStore::PackedNative(_) => 1,
        }
    }

    /// Returns the native packing factor for the values. When native packing > 1, the packed
    /// representation stores `num_quants` elements grouped into packs of `native_packing` size.
    pub fn native_packing(&self) -> (r: usize)
        ensures
            r == self.value.packing(),
    {
        self.value.native_packing()
    }

    /// Returns the packing dim for the store.
    pub fn packing_dim(&self) -> (r: Option<usize>)
        ensures
            r == self.store.dim(),
    {
        self.store.packing_dim()
    }

    /// Swaps the packing dim if it's either of `dim0` or `dim1`.
    /// Executes the corresponding update to `shape.swap(dim0, dim1)`.
    pub fn swap_packing_dim(&mut self, dim0: usize, dim1: usize)
        ensures
            *final(self) == (QuantScheme {
                store: old(self).store.dims_swapped(dim0, dim1),
                ..*old(self)
            }),
    {
        match self.store {
            QuantStore::Native => {},
            QuantStore::PackedNative(d) => {
                self.store = QuantStore::PackedNative(swap_dim(d, dim0, dim1));
            },
            QuantStore::PackedU32(d) => {
                self.store = QuantStore::PackedU32(swap_dim(d, dim0, dim1));
            },
            QuantStore::PackedU32Dense(d) => {
                self.store = QuantStore::PackedU32Dense(swap_dim(d, dim0, dim1));
            },
        }
    }
}

/// Gives a dimension after dimensions `dim0` and `dim1` have changed places.
fn swap_dim(dim: usize, dim0: usize, dim1: usize) -> (r: usize)
    ensures
        r == swapped(dim, dim0, dim1),
{
    if dim == dim0 {
        dim1
    } else if dim == dim1 {
        dim0
    } else {
        dim
    }
}

/// Swapping the same two dimensions twice gives back the scheme.
pub proof fn law_swap_twice(store: QuantStore, dim0: usize, dim1: usize)
    ensures
        store.dims_swapped(dim0, dim1).dims_swapped(dim0, dim1) == store,
{
}

/// The order in which the two dimensions are named makes no difference.
pub proof fn law_swap_commutes(store: QuantStore, dim0: usize, dim1: usize)
    ensures
        store.dims_swapped(dim0, dim1) == store.dims_swapped(dim1, dim0),
{
}

/// The packing dimension follows the swap of the shape, for every store that is packed: the
/// dimension of a shape that the store was packed on stands, after the swap of the shape, where
/// the packing dimension then points.
pub proof fn law_swap_follows_shape(store: QuantStore, dim0: usize, dim1: usize, shape: Seq<usize>)
    requires
        store.dim() is Some,
        store.dim()->0 < shape.len(),
        dim0 < shape.len(),
        dim1 < shape.len(),
    ensures
        ({
            let after = shape.update(dim0 as int, shape[dim1 as int]).update(
                dim1 as int,
                shape[dim0 as int],
            );
            let moved = store.dims_swapped(dim0, dim1).dim();
            moved is Some && after[moved->0 as int] == shape[store.dim()->0 as int]
        }),
{
}

/// Swapping dimensions changes no size.
pub proof fn law_swap_keeps_sizes(scheme: QuantScheme, dim0: usize, dim1: usize)
    ensures
        ({
            let after = QuantScheme { store: scheme.store.dims_swapped(dim0, dim1), ..scheme };
            &&& after.stored_bits() == scheme.stored_bits()
            &&& after.quants() == scheme.quants()
            &&& after.words() == scheme.words()
        }),
{
}

/// The values that a store element holds fill it exactly, except that a plain word holds five
/// 6-bit codes and leaves two bits unused, which is why 6-bit codes want a dense store.
pub proof fn law_quants_fill_element(scheme: QuantScheme)
    ensures
        scheme.quants() >= 1,
        scheme.store is PackedU32 && scheme.value == QuantValue::Q6F ==> scheme.quants() == 5
            && scheme.quants() * scheme.value.bits() + 2 == scheme.stored_bits(),
        !(scheme.store is PackedU32 && scheme.value == QuantValue::Q6F) ==> scheme.quants()
            * scheme.value.bits() == scheme.stored_bits(),
{
    let bits = scheme.value.bits();
    assert(bits == 2 || bits == 4 || bits == 6 || bits == 8);
    assert(scheme.value.packing() == 2 ==> bits == 4);
    assert(scheme.value.packing() == 1 ==> bits * scheme.value.packing() == bits)
        by (nonlinear_arith);
    assert(scheme.value.packing() == 2 ==> bits * scheme.value.packing() == bits + bits)
        by (nonlinear_arith);
    if bits == 2 {
        assert(scheme.quants() == scheme.stored_bits() / 2);
    } else if bits == 4 {
        assert(scheme.quants() == scheme.stored_bits() / 4);
    } else if bits == 6 {
        assert(scheme.quants() == scheme.stored_bits() / 6);
    } else {
        assert(scheme.quants() == scheme.stored_bits() / 8);
    }
}

/// A natively stored element holds one pack of the native representation, and a native store
/// without packing one value.
pub proof fn law_native_quants(scheme: QuantScheme)
    ensures
        scheme.store is Native ==> scheme.quants() == 1,
        scheme.store is PackedNative ==> scheme.quants() == scheme.value.packing(),
{
    law_quants_fill_element(scheme);
    let bits = scheme.value.bits();
    let quants = scheme.quants();
    let packing = scheme.value.packing();
    assert(quants * bits == bits ==> quants == 1) by (nonlinear_arith)
        requires
            bits > 0,
    ;
    assert(quants * bits == bits * packing ==> quants == packing) by (nonlinear_arith)
        requires
            bits > 0,
    ;
}

/// The words of an element hold exactly its bits, for the stores that are made of words.
pub proof fn law_words_hold_element(scheme: QuantScheme)
    ensures
        scheme.store is PackedU32 ==> scheme.words() == 1,
        scheme.store is PackedU32 || scheme.store is PackedU32Dense ==> scheme.words() * 32
            == scheme.stored_bits(),
{
}

/// In a dense store code `j` takes the bits from `j * size_bits` on. No code straddles the
/// boundary between two units: code `j` lies wholly in unit `j / num_quants`.
pub proof fn law_dense_codes_stay_in_unit(scheme: QuantScheme, j: nat)
    requires
        scheme.store is PackedU32Dense,
    ensures
        ({
            let unit = j / scheme.quants();
            let bits = scheme.value.bits();
            &&& unit * scheme.stored_bits() <= j * bits
            &&& (j + 1) * bits <= (unit + 1) * scheme.stored_bits()
        }),
{
    law_quants_fill_element(scheme);
    let n = scheme.quants();
    let bits = scheme.value.bits();
    let unit = j / n;
    let at = j % n;
    vstd::arithmetic::div_mod::lemma_fundamental_div_mod(j as int, n as int);
    assert(unit * (n * bits) <= j * bits && (j + 1) * bits <= (unit + 1) * (n * bits))
        by (nonlinear_arith)
        requires
            j == n * unit + at,
            0 <= at < n,
    ;
}

/// The range of a value reaches from below zero to above it, and it is one further down than up
/// where it is not symmetric.
pub proof fn law_symmetric_range(value: QuantValue)
    ensures
        value.bounds().0 < 0 < value.bounds().1,
        !value.symmetric() ==> value.bounds().0 == -value.bounds().1 - 1,
{
}

/// The integers of a full-range value are as many as its codes; a symmetric value leaves out the
/// least of them.
pub proof fn law_range_fits_codes(value: QuantValue)
    requires
        !value.floating(),
    ensures
        value.bounds().1 - value.bounds().0 + 1 == vstd::arithmetic::power2::pow2(value.bits()) - (
        if value.symmetric() {
            1int
        } else {
            0int
        }),
{
    vstd::arithmetic::power2::lemma2_to64();
}

/// A packed store names the dimension that it is packed on, whichever it is, and a native one names
/// none.
pub proof fn law_store_names_packing_dim(dim: usize)
    ensures
        QuantStore::PackedNative(dim).dim() == Some(dim),
        QuantStore::PackedU32(dim).dim() == Some(dim),
        QuantStore::PackedU32Dense(dim).dim() == Some(dim),
        QuantStore::Native.dim() is None,
{
}

/// The dimension that a tensor is packed on makes no difference to the size of an element.
pub proof fn law_size_without_packing_dim(value: QuantValue, a: usize, b: usize)
    ensures
        QuantStore::PackedNative(a).bits(value) == QuantStore::PackedNative(b).bits(value),
        QuantStore::PackedU32(a).bits(value) == QuantStore::PackedU32(b).bits(value),
        QuantStore::PackedU32Dense(a).bits(value) == QuantStore::PackedU32Dense(b).bits(value),
{
}

/// Swapping dimensions never changes how values are stored, and moves the packing dimension only if
/// it is one of the two.
pub proof fn law_swap_keeps_store(store: QuantStore, dim0: usize, dim1: usize)
    ensures
        store is Native <==> store.dims_swapped(dim0, dim1) is Native,
        store is PackedNative <==> store.dims_swapped(dim0, dim1) is PackedNative,
        store is PackedU32 <==> store.dims_swapped(dim0, dim1) is PackedU32,
        store is PackedU32Dense <==> store.dims_swapped(dim0, dim1) is PackedU32Dense,
        store.dim() == Some(dim0) ==> store.dims_swapped(dim0, dim1).dim() == Some(dim1),
        store.dim() == Some(dim1) ==> store.dims_swapped(dim0, dim1).dim() == Some(dim0),
        store.dim() != Some(dim0) && store.dim() != Some(dim1) ==> store.dims_swapped(dim0, dim1)
            == store,
{
}

/// A dense unit is the least number of bits that is made of whole words and of whole codes.
pub proof fn law_dense_unit_is_least(value: QuantValue, dim: usize, bits: nat)
    requires
        0 < bits,
        bits % 32 == 0,
        bits % value.bits() == 0,
    ensures
        QuantStore::PackedU32Dense(dim).bits(value) % 32 == 0,
        QuantStore::PackedU32Dense(dim).bits(value) % value.bits() == 0,
        0 < QuantStore::PackedU32Dense(dim).bits(value) <= bits,
{
    let unit = QuantStore::PackedU32Dense(dim).bits(value);
    if value.bits() == 6 {
        assert(bits % 6 == 0);
        assert(unit == 96);
        assert(96nat % 6nat == 0);
    } else if value.bits() == 8 {
        assert(unit == 32);
        assert(32nat % 8nat == 0);
    } else if value.bits() == 4 {
        assert(unit == 32);
        assert(32nat % 4nat == 0);
    } else {
        assert(value.bits() == 2);
        assert(unit == 32);
        assert(32nat % 2nat == 0);
    }
}

/// Sizes depend on the store and the value alone, not on level, mode, parameters or rotation.
pub proof fn law_sizes_go_by_store_and_value(a: QuantScheme, b: QuantScheme)
    requires
        a.store == b.store,
        a.value == b.value,
    ensures
        a.stored_bits() == a.store.bits(a.value),
        a.stored_bits() == b.stored_bits(),
        a.quants() == b.quants(),
        a.words() == b.words(),
        a.store is Native || a.store is PackedNative ==> a.words() == 1,
{
}

/// Setting the level of a scheme sets it, and leaves the rest.
pub proof fn law_scheme_takes_level(scheme: QuantScheme, level: QuantLevel, r: QuantScheme)
    requires
        call_ensures(QuantScheme::with_level, (scheme, level), r),
    ensures
        r.level == level,
        r.mode == scheme.mode,
        r.value == scheme.value,
        r.store == scheme.store,
        r.param == scheme.param,
        r.rotation == scheme.rotation,
{
}

/// Setting the mode of a scheme sets it, and leaves the rest.
pub proof fn law_scheme_takes_mode(scheme: QuantScheme, mode: QuantMode, r: QuantScheme)
    requires
        call_ensures(QuantScheme::with_mode, (scheme, mode), r),
    ensures
        r.mode == mode,
        r.level == scheme.level,
        r.value == scheme.value,
        r.store == scheme.store,
        r.param == scheme.param,
        r.rotation == scheme.rotation,
{
}

/// Setting the value of a scheme sets it, and leaves the rest.
pub proof fn law_scheme_takes_value(scheme: QuantScheme, value: QuantValue, r: QuantScheme)
    requires
        call_ensures(QuantScheme::with_value, (scheme, value), r),
    ensures
        r.value == value,
        r.level == scheme.level,
        r.mode == scheme.mode,
        r.store == scheme.store,
        r.param == scheme.param,
        r.rotation == scheme.rotation,
{
}

/// Setting the store of a scheme sets it, and leaves the rest.
pub proof fn law_scheme_takes_store(scheme: QuantScheme, store: QuantStore, r: QuantScheme)
    requires
        call_ensures(QuantScheme::with_store, (scheme, store), r),
    ensures
        r.store == store,
        r.level == scheme.level,
        r.mode == scheme.mode,
        r.value == scheme.value,
        r.param == scheme.param,
        r.rotation == scheme.rotation,
{
}

/// Setting the param of a scheme sets it, and leaves the rest.
pub proof fn law_scheme_takes_param(scheme: QuantScheme, param: QuantParam, r: QuantScheme)
    requires
        call_ensures(QuantScheme::with_param, (scheme, param), r),
    ensures
        r.param == param,
        r.level == scheme.level,
        r.mode == scheme.mode,
        r.value == scheme.value,
        r.store == scheme.store,
        r.rotation == scheme.rotation,
{
}

/// Setting the rotation of a scheme sets it, and leaves the rest.
pub proof fn law_scheme_takes_rotation(scheme: QuantScheme, rotation: Rotation, r: QuantScheme)
    requires
        call_ensures(QuantScheme::with_rotation, (scheme, rotation), r),
    ensures
        r.rotation == rotation,
        r.level == scheme.level,
        r.mode == scheme.mode,
        r.value == scheme.value,
        r.store == scheme.store,
        r.param == scheme.param,
{
}

/// A block level holds the dimensions that it was given.
pub proof fn law_block_level_holds_dimensions(values: &[u8], r: QuantLevel)
    requires
        call_ensures(QuantLevel::block, (values,), r),
    ensures
        r matches QuantLevel::Block(size) && size@.len() == values@.len() && forall|i: int|
            0 <= i < values@.len() ==> #[trigger] size@[i] == values@[i],
{
}

/// Swapping the same two dimensions again gives the scheme back. One swap moves the packing
/// dimension with the tensor, and leaves the rest of the scheme.
pub proof fn law_swapped_back(
    first: &mut QuantScheme,
    second: &mut QuantScheme,
    dim0: usize,
    dim1: usize,
    before: Option<usize>,
    between: Option<usize>,
)
    requires
        call_ensures(QuantScheme::swap_packing_dim, (first, dim0, dim1), ()),
        call_ensures(QuantScheme::swap_packing_dim, (second, dim0, dim1), ()),
        *old(second) == *final(first),
        call_ensures(QuantScheme::packing_dim, (old(first),), before),
        call_ensures(QuantScheme::packing_dim, (old(second),), between),
    ensures
        *final(second) == *old(first),
        before == Some(dim0) ==> between == Some(dim1),
        before == Some(dim1) ==> between == Some(dim0),
        before != Some(dim0) && before != Some(dim1) ==> between == before,
        final(first).value == old(first).value,
        final(first).param == old(first).param,
        final(first).level == old(first).level,
        final(first).mode == old(first).mode,
        final(first).rotation == old(first).rotation,
{
    law_swap_twice(old(first).store, dim0, dim1);
}

/// As many quants are packed in a storage element as fit: one more would not. Packed words hold
/// the element exactly.
pub proof fn law_packed_quants_fit(
    scheme: &QuantScheme,
    stored: usize,
    value: usize,
    quants: usize,
    words: usize,
)
    requires
        call_ensures(QuantScheme::size_bits_stored, (scheme,), stored),
        call_ensures(QuantScheme::size_bits_value, (scheme,), value),
        call_ensures(QuantScheme::num_quants, (scheme,), quants),
        call_ensures(QuantScheme::storage_words_per_unit, (scheme,), words),
    ensures
        quants >= 1,
        quants * value <= stored < (quants + 1) * value,
        scheme.store is PackedU32 || scheme.store is PackedU32Dense ==> words * 32 == stored,
        scheme.store is Native || scheme.store is PackedNative ==> words == 1,
        scheme.store is PackedU32Dense ==> quants * value == stored,
{
    law_quants_fill_element(*scheme);
    law_words_hold_element(*scheme);
    law_sizes_go_by_store_and_value(*scheme, *scheme);
    assert((quants + 1) * value == quants * value + value) by (nonlinear_arith);
}

/// The sizes of a value are those of the scheme with it. Its range reaches below and above zero,
/// and as far both ways where it is symmetric and no float.
pub proof fn law_value_sizes_its_scheme(
    scheme: &QuantScheme,
    bits: usize,
    of_scheme: usize,
    stored: usize,
    of_store: usize,
    packing: usize,
    packed: usize,
    range: (i32, i32),
    symmetric: bool,
)
    requires
        call_ensures(QuantValue::size_bits, (&scheme.value,), bits),
        call_ensures(QuantScheme::size_bits_value, (scheme,), of_scheme),
        call_ensures(QuantStore::size_bits, (&scheme.store, &scheme.value), stored),
        call_ensures(QuantScheme::size_bits_stored, (scheme,), of_store),
        call_ensures(QuantValue::native_packing, (&scheme.value,), packing),
        call_ensures(QuantScheme::native_packing, (scheme,), packed),
        call_ensures(QuantValue::range, (&scheme.value,), range),
        call_ensures(QuantValue::is_symmetric, (&scheme.value,), symmetric),
    ensures
        bits == of_scheme,
        stored == of_store,
        packing == packed,
        scheme.store is Native ==> stored == bits,
        scheme.store is PackedNative ==> stored == bits * packing,
        scheme.store is PackedU32 ==> stored == 32,
        scheme.store is PackedU32Dense ==> stored % 32 == 0 && stored % bits == 0,
        range.0 < 0 < range.1,
        symmetric ==> range.0 == -range.1,
        !symmetric ==> range.0 == -range.1 - 1,
{
    law_symmetric_range(scheme.value);
    law_words_hold_element(*scheme);
    law_quants_fill_element(*scheme);
    if scheme.store is PackedU32Dense {
        assert(96nat % 2nat == 0);
        assert(96nat % 4nat == 0);
        assert(96nat % 6nat == 0);
        assert(96nat % 8nat == 0);
        law_dense_unit_is_least(scheme.value, scheme.store->PackedU32Dense_0, 96);
    }
}

} // verus!
