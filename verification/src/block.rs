//! The block size of a quantization level: a few small dimensions, held inline.

use vstd::prelude::*;

use crate::fmt::{text_taken, write_text};
use crate::text::push_decimal;

verus! {

/// Most dimensions that a block size can hold.
pub const MAX_DIMS: usize = 5;

/// A copyable list of up to [`MAX_DIMS`] block dimensions. Its view is the list.
#[derive(Clone, Copy, Hash, Eq, PartialOrd, Ord)]
pub struct BlockSize {
    storage: [u8; MAX_DIMS],
    len: u8,
}

/// The product of all dimensions; one for the empty list.
pub open spec fn dims_product(dims: Seq<u8>) -> nat
    decreases dims.len(),
{
    if dims.len() == 0 {
        1
    } else {
        dims_product(dims.drop_last()) * dims.last() as nat
    }
}

/// The first dimensions of `dims`, at most `n` of them, behind as many ones as make it `n`
/// dimensions in all.
pub open spec fn unsqueezed(dims: Seq<u8>, n: nat) -> Seq<u8> {
    let kept = if n < dims.len() {
        n
    } else {
        dims.len()
    };
    Seq::new((n - kept) as nat, |i: int| 1u8) + dims.take(kept as int)
}

/// How many zeros stand before the first other value, or before the end.
pub open spec fn zero_prefix(values: Seq<u8>) -> nat
    decreases values.len(),
{
    if values.len() == 0 || values[0] != 0 {
        0
    } else {
        1 + zero_prefix(values.drop_first())
    }
}

/// `values` from its first value other than zero on. Zeros that lead up to no such value stay.
pub open spec fn zeros_trimmed(values: Seq<u8>) -> Seq<u8> {
    if zero_prefix(values) == values.len() {
        values
    } else {
        values.skip(zero_prefix(values) as int)
    }
}

/// `values` cut down to the dimensions that a block size can hold.
pub open spec fn capped(values: Seq<u8>) -> Seq<u8> {
    if values.len() <= MAX_DIMS {
        values
    } else {
        values.take(MAX_DIMS as int)
    }
}

/// The dimensions as a list in brackets, each but the first behind a comma and a space.
pub open spec fn dims_text(dims: Seq<u8>) -> Seq<char>
    decreases dims.len(),
{
    if dims.len() == 0 {
        seq![]
    } else if dims.len() == 1 {
        crate::text::decimal(dims[0] as nat)
    } else {
        dims_text(dims.drop_last()) + ", "@ + crate::text::decimal(dims.last() as nat)
    }
}

/// Unsqueezing to `n` dimensions gives exactly `n` of them.
pub proof fn law_unsqueezed_len(dims: Seq<u8>, n: nat)
    ensures
        unsqueezed(dims, n).len() == n,
{
}

/// Unsqueezing to no fewer dimensions than there are keeps the number of elements.
pub proof fn law_unsqueezed_keeps_elements(dims: Seq<u8>, n: nat)
    requires
        n >= dims.len(),
    ensures
        dims_product(unsqueezed(dims, n)) == dims_product(dims),
    decreases n,
{
    let wide = unsqueezed(dims, n);
    if dims.len() > 0 {
        assert(wide.drop_last() =~= unsqueezed(dims.drop_last(), (n - 1) as nat));
        assert(wide.last() == dims.last());
        law_unsqueezed_keeps_elements(dims.drop_last(), (n - 1) as nat);
    } else if n > 0 {
        assert(wide.drop_last() =~= unsqueezed(dims, (n - 1) as nat));
        assert(wide.last() == 1);
        law_unsqueezed_keeps_elements(dims, (n - 1) as nat);
    } else {
        assert(wide =~= dims);
    }
}

/// Unsqueezing to as many dimensions as there are changes nothing.
pub proof fn law_unsqueezed_to_own_len(dims: Seq<u8>)
    ensures
        unsqueezed(dims, dims.len()) == dims,
{
    assert(unsqueezed(dims, dims.len()) =~= dims);
}

/// Zeros stand up to the end of the prefix, and not right behind it.
proof fn lemma_zero_prefix(values: Seq<u8>)
    ensures
        zero_prefix(values) <= values.len(),
        forall|i: int| 0 <= i < zero_prefix(values) ==> values[i] == 0,
        zero_prefix(values) < values.len() ==> values[zero_prefix(values) as int] != 0,
    decreases values.len(),
{
    if values.len() > 0 && values[0] == 0 {
        let rest = values.drop_first();
        lemma_zero_prefix(rest);
        assert forall|i: int| 0 <= i < zero_prefix(values) implies values[i] == 0 by {
            if i > 0 {
                assert(values[i] == rest[i - 1]);
            }
        }
        if zero_prefix(values) < values.len() {
            assert(values[zero_prefix(values) as int] == rest[zero_prefix(rest) as int]);
        }
    }
}

/// What trimming leaves does not start with a zero, unless there were only zeros; what it takes
/// away is zeros from the front.
pub proof fn law_trim_takes_leading_zeros(values: Seq<u8>)
    ensures
        (exists|i: int| 0 <= i < values.len() && values[i] != 0) ==> zeros_trimmed(values).len() > 0
            && zeros_trimmed(values)[0] != 0,
        (forall|i: int| 0 <= i < values.len() ==> values[i] == 0) ==> zeros_trimmed(values)
            == values,
        zeros_trimmed(values).len() <= values.len(),
        zeros_trimmed(values) == values.skip(values.len() - zeros_trimmed(values).len()),
        forall|i: int| 0 <= i < values.len() - zeros_trimmed(values).len() ==> values[i] == 0,
{
    lemma_zero_prefix(values);
    assert(values.skip(0) =~= values);
}

/// Trimming twice is trimming once.
pub proof fn law_trim_idempotent(values: Seq<u8>)
    ensures
        zeros_trimmed(zeros_trimmed(values)) == zeros_trimmed(values),
{
    lemma_zero_prefix(values);
    let once = zeros_trimmed(values);
    lemma_zero_prefix(once);
    if zero_prefix(values) < values.len() {
        assert(once[0] == values[zero_prefix(values) as int]);
        assert(once.skip(0) =~= once);
    }
}

/// The product of up to five dimensions takes at most a byte for each.
proof fn lemma_product_bounded(dims: Seq<u8>)
    requires
        dims.len() <= 5,
    ensures
        dims.len() == 0 ==> dims_product(dims) <= 1,
        dims.len() == 1 ==> dims_product(dims) <= 0xff,
        dims.len() == 2 ==> dims_product(dims) <= 0xffff,
        dims.len() == 3 ==> dims_product(dims) <= 0xff_ffff,
        dims.len() == 4 ==> dims_product(dims) <= 0xffff_ffff,
        dims.len() == 5 ==> dims_product(dims) <= 0xff_ffff_ffff,
    decreases dims.len(),
{
    if dims.len() > 0 {
        lemma_product_bounded(dims.drop_last());
        let earlier = dims_product(dims.drop_last());
        let last = dims.last() as nat;
        assert(earlier * last <= earlier * 0xff) by (nonlinear_arith)
            requires
                last <= 0xff,
        ;
    }
}

impl View for BlockSize {
    type V = Seq<u8>;

    closed spec fn view(&self) -> Seq<u8> {
        self.storage@.take(self.len as int)
    }
}

impl BlockSize {
    /// Most dimensions that a block size can hold.
    pub const MAX_DIMS: usize = MAX_DIMS;

    /// Only the dimensions in use differ from one, and they fit.
    #[verifier::type_invariant]
    pub closed spec fn well_formed(self) -> bool {
        &&& self.len <= MAX_DIMS
        &&& forall|i: int| self.len <= i < MAX_DIMS ==> self.storage[i] == 1
    }

    /// The block size with the given dimensions.
    pub open spec fn of_dims(dims: Seq<u8>) -> Self {
        choose|b: Self| b.well_formed() && #[trigger] b@ == dims
    }

    /// A block size of the given dimensions, cut down to those that it can hold.
    fn of_capped(values: &[u8]) -> (r: Self)
        ensures
            r@ == capped(values@),
    {
        let len: usize = if values.len() < MAX_DIMS {
            values.len()
        } else {
            MAX_DIMS
        };
        let mut storage: [u8; MAX_DIMS] = [1u8; MAX_DIMS];
        let mut i: usize = 0;
        while i < len
            invariant
                i <= len <= MAX_DIMS,
                len <= values@.len(),
                forall|j: int| 0 <= j < i ==> storage[j] == values@[j],
                forall|j: int| i <= j < MAX_DIMS ==> storage[j] == 1,
            decreases len - i,
        {
            storage[i] = values[i];
            i += 1;
        }
        let r = BlockSize { storage, len: len as u8 };
        assert(r@ =~= capped(values@));
        r
    }

    /// Create a new block size from a set of values. The number of values must be `<= MAX_DIMS`.
    pub fn new(values: &[u8]) -> (r: Self)
        requires
            values@.len() <= MAX_DIMS,
        ensures
            r@ == values@,
    {
        Self::of_capped(values)
    }

    /// Create a new block size from a set of values, without any leading zeros. The number of
    /// values that are left must be `<= MAX_DIMS`. Where all values are zero, none is trimmed.
    pub fn new_trim(values: &[u8]) -> (r: Self)
        requires
            zeros_trimmed(values@).len() <= MAX_DIMS,
        ensures
            r@ == zeros_trimmed(values@),
    {
        let mut first: usize = 0;
        assert(values@.skip(0) =~= values@);
        while first < values.len() && values[first] == 0
            invariant
                first <= values@.len(),
                zero_prefix(values@) == first + zero_prefix(values@.skip(first as int)),
            decreases values@.len() - first,
        {
            proof {
                assert(values@.skip(first as int).drop_first() =~= values@.skip(first + 1));
            }
            first += 1;
        }
        if first == values.len() {
            first = 0;
        }
        Self::of_capped(&values[first..values.len()])
    }

    /// Return a slice of only the initialized values.
    pub fn as_slice(&self) -> (r: &[u8])
        ensures
            r@ == self@,
    {
        proof {
            use_type_invariant(self);
        }
        &self.storage[0..self.len as usize]
    }

    /// Return a vec of only the initialized values.
    pub fn to_vec(&self) -> (r: Vec<u8>)
        ensures
            r@ == self@,
    {
        let dims = self.as_slice();
        let mut out: Vec<u8> = Vec::with_capacity(dims.len());
        out.extend_from_slice(dims);
        assert(out@ =~= dims@);
        out
    }

    /// Returns `N` dimensions, unsqueezing if necessary.
    pub fn as_dim<const N: usize>(&self) -> (r: [u8; N])
        ensures
            r@ == unsqueezed(self@, N as nat),
    {
        let dims = self.as_slice();
        let data_len: usize = if N < dims.len() {
            N
        } else {
            dims.len()
        };
        let data_start: usize = N - data_len;
        let mut out: [u8; N] = [1u8; N];
        let mut i: usize = 0;
        while i < data_len
            invariant
                i <= data_len <= dims@.len(),
                data_start + data_len == N,
                forall|j: int| 0 <= j < data_start ==> out[j] == 1,
                forall|j: int| 0 <= j < i ==> out[data_start + j] == dims@[j],
            decreases data_len - i,
        {
            out[data_start + i] = dims[i];
            i += 1;
        }
        assert(out@ =~= unsqueezed(self@, N as nat));
        out
    }

    /// Returns a vector of `len` dimensions, unsqueezing if necessary.
    pub fn to_dim_vec(&self, len: usize) -> (r: Vec<u8>)
        ensures
            r@ == unsqueezed(self@, len as nat),
    {
        let dims = self.as_slice();
        let data_len: usize = if len < dims.len() {
            len
        } else {
            dims.len()
        };
        let ones: usize = len - data_len;
        let mut out: Vec<u8> = vec![1u8; ones];
        out.extend_from_slice(&dims[0..data_len]);
        assert(out@ =~= unsqueezed(self@, len as nat));
        out
    }

    /// Create an iterator over all stored dimensions.
    pub fn iter(&self) -> (r: core::slice::Iter<'_, u8>)
        ensures
            vstd::std_specs::iter::IteratorSpec::remaining(&r) == self@.as_ref(),
    {
        self.as_slice().iter()
    }

    /// Returns the total number of elements in each block.
    pub fn num_elements(&self) -> (r: usize)
        requires
            dims_product(self@) <= usize::MAX,
        ensures
            r == dims_product(self@),
    {
        let dims = self.as_slice();
        let mut product: u64 = 1;
        let mut i: usize = 0;
        proof {
            use_type_invariant(self);
        }
        while i < dims.len()
            invariant
                i <= dims@.len() <= MAX_DIMS,
                product == dims_product(dims@.take(i as int)),
            decreases dims@.len() - i,
        {
            proof {
                let next = dims@.take(i + 1);
                assert(next.drop_last() =~= dims@.take(i as int));
                assert(next.last() == dims@[i as int]);
                lemma_product_bounded(next);
            }
            product = product * dims[i] as u64;
            i += 1;
        }
        assert(dims@.take(i as int) =~= self@);
        product as usize
    }

    /// The block size as `BlockSize([32, 16])`.
    pub fn debug_text(&self) -> (r: String)
        ensures
            r@ == "BlockSize(["@ + dims_text(self@) + "])"@,
    {
        let dims = self.as_slice();
        let mut out = String::from_str("BlockSize([");
        let mut i: usize = 0;
        while i < dims.len()
            invariant
                i <= dims@.len(),
                out@ == "BlockSize(["@ + dims_text(dims@.take(i as int)),
            decreases dims@.len() - i,
        {
            let ghost before = out@;
            let ghost next = dims@.take(i + 1);
            proof {
                assert(next.drop_last() =~= dims@.take(i as int));
                assert(next.last() == dims@[i as int]);
            }
            if i > 0 {
                out.append(", ");
            }
            push_decimal(&mut out, dims[i] as u64);
            assert(out@ =~= "BlockSize(["@ + dims_text(next));
            i += 1;
        }
        assert(dims@.take(i as int) =~= self@);
        out.append("])");
        out
    }

    /// A block size holds no more dimensions than it has room for, so that its number of elements
    /// takes at most five bytes.
    pub proof fn law_dims_bounded(self)
        requires
            self.well_formed(),
        ensures
            self@.len() <= MAX_DIMS,
            dims_product(self@) <= 0xff_ffff_ffff,
    {
        lemma_product_bounded(self@);
    }

    /// Two block sizes with the same dimensions are the same value.
    pub proof fn law_view_injective(a: Self, b: Self)
        requires
            a.well_formed(),
            b.well_formed(),
            a@ == b@,
        ensures
            a == b,
    {
        assert(a@.len() == a.len);
        assert(b@.len() == b.len);
        assert forall|i: int| 0 <= i < MAX_DIMS implies a.storage[i] == b.storage[i] by {
            if i < a.len {
                assert(a@[i] == a.storage[i]);
                assert(b@[i] == b.storage[i]);
            }
        }
        assert(a.storage =~= b.storage);
    }
}

impl core::fmt::Debug for BlockSize {
    /// The block size as `BlockSize([32, 16])`.
    fn fmt(&self, f: &mut core::fmt::Formatter<'_>) -> (r: core::fmt::Result)
        ensures
            r is Ok ==> text_taken(*final(f)) == text_taken(*old(f)) + ("BlockSize(["@ + dims_text(
                self@,
            ) + "])"@),
    {
        write_text(f, self.debug_text().as_str())
    }
}

impl PartialEq for BlockSize {
    /// Block sizes are equal when their dimensions are.
    fn eq(&self, other: &Self) -> (r: bool) {
        let a = self.as_slice();
        let b = other.as_slice();
        if a.len() != b.len() {
            return false;
        }
        let mut i: usize = 0;
        while i < a.len()
            invariant
                a@ == self@,
                b@ == other@,
                i <= a@.len() == b@.len(),
                forall|j: int| 0 <= j < i ==> a@[j] == b@[j],
            decreases a@.len() - i,
        {
            if a[i] != b[i] {
                return false;
            }
            i += 1;
        }
        assert(a@ =~= b@);
        true
    }
}

impl vstd::std_specs::cmp::PartialEqSpecImpl for BlockSize {
    open spec fn obeys_eq_spec() -> bool {
        true
    }

    open spec fn eq_spec(&self, other: &Self) -> bool {
        self@ == other@
    }
}

impl core::ops::Deref for BlockSize {
    type Target = [u8];

    /// The dimensions as a slice.
    fn deref(&self) -> (r: &[u8])
        ensures
            r@ == self@,
    {
        self.as_slice()
    }
}

impl From<&[u8]> for BlockSize {
    /// A block size of the given dimensions, cut down to the first [`MAX_DIMS`] of them.
    fn from(values: &[u8]) -> (r: Self)
        ensures
            r@ == capped(values@),
    {
        let r = Self::of_capped(values);
        proof {
            use_type_invariant(&r);
            Self::law_view_injective(r, Self::of_dims(capped(values@)));
        }
        r
    }
}

impl vstd::std_specs::convert::FromSpecImpl<&[u8]> for BlockSize {
    open spec fn obeys_from_spec() -> bool {
        true
    }

    open spec fn from_spec(values: &[u8]) -> Self {
        Self::of_dims(capped(values@))
    }
}

/// Unsqueezing fills up with ones in front and keeps the dimensions in order behind them; where
/// there are more than asked for, the first are kept.
pub proof fn law_unsqueezed_dimensions(dims: Seq<u8>, n: nat, i: int)
    requires
        0 <= i < n,
    ensures
        n >= dims.len() && i < n - dims.len() ==> unsqueezed(dims, n)[i] == 1,
        n >= dims.len() && i >= n - dims.len() ==> unsqueezed(dims, n)[i] == dims[i - (n
            - dims.len())],
        n < dims.len() ==> unsqueezed(dims, n)[i] == dims[i],
{
}

/// The elements of a block of two parts are those of the one for each of the other. A single
/// dimension has as many as it says, and no dimension at all has one.
pub proof fn law_elements_multiply(a: Seq<u8>, b: Seq<u8>, dim: u8)
    ensures
        dims_product(a + b) == dims_product(a) * dims_product(b),
        dims_product(seq![dim]) == dim,
        dims_product(Seq::<u8>::empty()) == 1,
    decreases b.len(),
{
    reveal_with_fuel(dims_product, 2);
    assert(seq![dim].drop_last() =~= seq![]);
    assert(dims_product(seq![dim]) == 1 * dim as nat);
    if b.len() == 0 {
        assert(a + b =~= a);
        assert(dims_product(a) * 1 == dims_product(a)) by (nonlinear_arith);
        assert(dims_product(b) == 1);
    } else {
        law_elements_multiply(a, b.drop_last(), dim);
        assert((a + b).drop_last() =~= a + b.drop_last());
        assert((a + b).last() == b.last());
        let x = dims_product(a);
        let y = dims_product(b.drop_last());
        let z = b.last() as nat;
        assert((x * y) * z == x * (y * z)) by (nonlinear_arith);
        assert(dims_product(b) == y * z);
        assert(dims_product(a + b) == (x * y) * z);
    }
}

/// What a block size keeps of a list of values is the values in order, all of them up to five.
pub proof fn law_capped_keeps_first(values: Seq<u8>, i: int)
    requires
        0 <= i < values.len(),
        i < 5,
    ensures
        capped(values).len() <= 5,
        capped(values).len() <= values.len(),
        i < capped(values).len(),
        capped(values)[i] == values[i],
{
}

/// The text of two lists one behind the other is the text of each, with a comma and a space between
/// them. A single dimension is written in decimal.
pub proof fn law_dimensions_listed(a: Seq<u8>, b: Seq<u8>, dim: u8)
    requires
        a.len() > 0,
        b.len() > 0,
    ensures
        dims_text(a + b) == dims_text(a) + ", "@ + dims_text(b),
        dims_text(seq![dim]) == crate::text::decimal(dim as nat),
    decreases b.len(),
{
    if b.len() == 1 {
        assert((a + b).drop_last() =~= a);
        assert(b.last() == b[0]);
    } else {
        law_dimensions_listed(a, b.drop_last(), dim);
        assert((a + b).drop_last() =~= a + b.drop_last());
        assert(dims_text(a + b) =~= dims_text(a) + ", "@ + dims_text(b));
    }
}

/// Block sizes compare equal exactly if they have the same dimensions, all of them in order.
pub proof fn law_equal_blocks_have_equal_dimensions(a: BlockSize, b: BlockSize)
    ensures
        vstd::std_specs::cmp::PartialEqSpec::eq_spec(&a, &b) <==> a@.len() == b@.len() && forall|
            i: int,
        |
            0 <= i < a@.len() ==> #[trigger] a@[i] == b@[i],
{
    if a@.len() == b@.len() && forall|i: int| 0 <= i < a@.len() ==> #[trigger] a@[i] == b@[i] {
        assert(a@ =~= b@);
    }
}

/// A block gives back the dimensions that it was made of, each in its place, in every form.
pub proof fn law_block_gives_its_dimensions(
    values: &[u8],
    block: BlockSize,
    slice: &[u8],
    vec: Vec<u8>,
    elements: usize,
)
    requires
        call_ensures(BlockSize::new, (values,), block),
        call_ensures(BlockSize::as_slice, (&block,), slice),
        call_ensures(BlockSize::to_vec, (&block,), vec),
        call_ensures(BlockSize::num_elements, (&block,), elements),
    ensures
        slice@ == values@,
        vec@ == values@,
        values@.len() == 0 ==> elements == 1,
        values@.len() == 1 ==> elements == values@[0],
        values@.len() == 2 ==> elements == values@[0] * values@[1],
        elements == 0 ==> exists|i: int| 0 <= i < values@.len() && values@[i] == 0,
{
    let dims = values@;
    if dims.len() == 1 {
        law_elements_multiply(dims, seq![], dims[0]);
        assert(dims =~= seq![dims[0]]);
    }
    if dims.len() == 2 {
        law_elements_multiply(seq![dims[0]], seq![dims[1]], dims[0]);
        law_elements_multiply(seq![dims[0]], seq![dims[1]], dims[1]);
        assert(dims =~= seq![dims[0]] + seq![dims[1]]);
    }
    if forall|i: int| 0 <= i < dims.len() ==> dims[i] != 0 {
        lemma_positive_elements(dims);
    }
}

/// Dimensions other than zero have at least one element.
proof fn lemma_positive_elements(dims: Seq<u8>)
    requires
        forall|i: int| 0 <= i < dims.len() ==> dims[i] != 0,
    ensures
        dims_product(dims) >= 1,
    decreases dims.len(),
{
    if dims.len() > 0 {
        lemma_positive_elements(dims.drop_last());
        let rest = dims_product(dims.drop_last());
        let last = dims.last() as nat;
        assert(rest * last >= 1) by (nonlinear_arith)
            requires
                rest >= 1,
                last >= 1,
        ;
    }
}

/// A block in more dimensions has ones in front, and its own dimensions behind them.
pub proof fn law_block_in_more_dimensions(block: &BlockSize, len: usize, r: Vec<u8>)
    requires
        call_ensures(BlockSize::to_dim_vec, (block, len), r),
        len >= block@.len(),
    ensures
        r@.len() == len,
        forall|i: int| 0 <= i < len - block@.len() ==> #[trigger] r@[i] == 1,
        r@.skip(len - block@.len()) == block@,
{
    assert(r@.skip(len - block@.len()) =~= block@);
}

/// A trimmed block has the dimensions from the first that is not zero on; where all are zero, all
/// of them.
pub proof fn law_trimmed_block_starts_past_zeros(values: &[u8], r: BlockSize)
    requires
        call_ensures(BlockSize::new_trim, (values,), r),
    ensures
        r@.len() <= values@.len(),
        r@ == values@.skip(values@.len() - r@.len()),
        forall|i: int| 0 <= i < values@.len() - r@.len() ==> #[trigger] values@[i] == 0,
        r@.len() < values@.len() ==> r@.len() > 0 && r@[0] != 0,
        r@.len() > 0 && r@[0] == 0 ==> forall|i: int|
            0 <= i < values@.len() ==> #[trigger] values@[i] == 0,
{
    law_trim_takes_leading_zeros(values@);
}

/// A block has the same dimensions in an array as in a vector of that length.
pub proof fn law_array_as_vector<const N: usize>(block: &BlockSize, a: [u8; N], v: Vec<u8>)
    requires
        call_ensures(BlockSize::as_dim::<N>, (block,), a),
        call_ensures(BlockSize::to_dim_vec, (block, N), v),
    ensures
        a@ == v@,
        a@.len() == N,
{
}

/// Walking through a block gives each dimension in its place.
pub proof fn law_walk_gives_each_dimension(
    block: &BlockSize,
    r: core::slice::Iter<'_, u8>,
    i: int,
)
    requires
        call_ensures(BlockSize::iter, (block,), r),
        0 <= i < block@.len(),
    ensures
        vstd::std_specs::iter::IteratorSpec::remaining(&r).len() == block@.len(),
        *vstd::std_specs::iter::IteratorSpec::remaining(&r)[i] == block@[i],
{
}

} // verus!
