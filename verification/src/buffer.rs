//! Unified-memory buffers, as the addresses and lengths that the host works with.

use vstd::prelude::*;

use crate::text::{decimal, push_decimal};

verus! {

/// A buffer allocation. On Apple Silicon shared storage is unified memory, so host and device
/// address the same bytes. `R` is the raw buffer that a driver holds.
#[derive(Debug)]
pub struct Buffer<R> {
    raw: R,
    gpu_address: u64,
    host_address: usize,
    len: usize,
}

/// What a [`Buffer`] is.
pub struct BufferView<R> {
    /// The raw buffer.
    pub raw: R,
    /// GPU virtual address.
    pub gpu_address: u64,
    /// Address of the contents on the host.
    pub host_address: usize,
    /// Byte length of the allocation.
    pub len: nat,
}

impl<R> View for Buffer<R> {
    type V = BufferView<R>;

    closed spec fn view(&self) -> BufferView<R> {
        BufferView {
            raw: self.raw,
            gpu_address: self.gpu_address,
            host_address: self.host_address,
            len: self.len as nat,
        }
    }
}

/// The bytes of a buffer after `data` has been written to its start.
pub open spec fn written(contents: Seq<u8>, data: Seq<u8>) -> Seq<u8> {
    data + contents.skip(data.len() as int)
}

/// Copies `data` to the start of `contents`.
pub(crate) fn copy_to_start(contents: &mut [u8], data: &[u8])
    requires
        data@.len() <= old(contents)@.len(),
    ensures
        final(contents)@ == written(old(contents)@, data@),
{
    let ghost before = contents@;
    let mut i: usize = 0;
    while i < data.len()
        invariant
            i <= data@.len() <= before.len(),
            contents@.len() == before.len(),
            forall|j: int| 0 <= j < i ==> contents@[j] == data@[j],
            forall|j: int| i <= j < before.len() ==> contents@[j] == before[j],
        decreases data@.len() - i,
    {
        contents[i] = data[i];
        i += 1;
    }
    assert(contents@ =~= written(before, data@));
}

impl<R> Buffer<R> {
    /// The length of a buffer is a machine number.
    pub proof fn lemma_len_fits(self)
        ensures
            self@.len <= usize::MAX,
    {
    }

    /// A buffer of `len` bytes with the given addresses.
    pub fn new(raw: R, gpu_address: u64, host_address: usize, len: usize) -> (r: Self)
        ensures
            r@ == (BufferView { raw, gpu_address, host_address, len: len as nat }),
    {
        Buffer { raw, gpu_address, host_address, len }
    }

    /// The raw buffer.
    pub fn raw(&self) -> (r: &R)
        ensures
            *r == self@.raw,
    {
        &self.raw
    }

    /// GPU virtual address, for binding into an argument table.
    pub fn gpu_address(&self) -> (r: u64)
        ensures
            r == self@.gpu_address,
    {
        self.gpu_address
    }

    /// Address of the shared (unified-memory) buffer contents, for host read/write. Valid for
    /// `len()` bytes.
    pub fn contents_ptr(&self) -> (r: usize)
        ensures
            r == self@.host_address,
    {
        self.host_address
    }

    /// Byte length of the allocation.
    pub fn len(&self) -> (r: usize)
        ensures
            r == self@.len,
    {
        self.len
    }

    /// Whether the buffer has no bytes.
    pub fn is_empty(&self) -> (r: bool)
        ensures
            r == (self@.len == 0),
    {
        self.len == 0
    }

    /// How many elements of `element_size` bytes the buffer holds when it is viewed as a slice of
    /// them.
    pub fn slice_len(&self, element_size: usize) -> (r: usize)
        requires
            element_size > 0,
        ensures
            r == self@.len / (element_size as nat),
    {
        self.len / element_size
    }

    /// Why `bytes` bytes cannot be written to the buffer, if they cannot.
    pub fn write_refusal(&self, bytes: usize) -> (r: Option<String>)
        ensures
            bytes <= self@.len ==> r is None,
            bytes > self@.len ==> (r matches Some(message) && message@ == "write "@ + decimal(
                bytes as nat,
            ) + " > buffer "@ + decimal(self@.len)),
    {
        if bytes <= self.len {
            return None;
        }
        let mut message = String::from_str("write ");
        push_decimal(&mut message, bytes as u64);
        message.append(" > buffer ");
        push_decimal(&mut message, self.len as u64);
        Some(message)
    }

    /// Write `data` into the buffer, whose contents are given (host to unified memory): it takes
    /// the place of the first bytes, and the others stay.
    pub fn write(&self, contents: &mut [u8], data: &[u8])
        requires
            old(contents)@.len() == self@.len,
            data@.len() <= self@.len,
        ensures
            final(contents)@ == written(old(contents)@, data@),
    {
        copy_to_start(contents, data);
    }
}

/// The GPU addresses of buffers, in order.
pub open spec fn addresses_of<R>(bindings: Seq<&Buffer<R>>) -> Seq<u64> {
    Seq::new(bindings.len(), |i: int| bindings[i]@.gpu_address)
}

/// The GPU addresses of the bound buffers, in slot order.
pub fn binding_addresses<R>(bindings: &[&Buffer<R>]) -> (r: Vec<u64>)
    ensures
        r@ == addresses_of(bindings@),
{
    let mut addresses: Vec<u64> = Vec::new();
    let mut i: usize = 0;
    while i < bindings.len()
        invariant
            i == addresses@.len() <= bindings@.len(),
            forall|j: int| 0 <= j < i ==> addresses@[j] == bindings@[j]@.gpu_address,
        decreases bindings@.len() - i,
    {
        addresses.push(bindings[i].gpu_address());
        i += 1;
    }
    assert(addresses@ =~= addresses_of(bindings@));
    addresses
}

/// What was written to the start of a buffer is read back from there, and the rest is as it was.
pub proof fn law_written_read_back(contents: Seq<u8>, data: Seq<u8>)
    requires
        data.len() <= contents.len(),
    ensures
        written(contents, data).len() == contents.len(),
        written(contents, data).take(data.len() as int) == data,
        written(contents, data).skip(data.len() as int) == contents.skip(data.len() as int),
{
    let after = written(contents, data);
    assert(after.take(data.len() as int) =~= data);
    assert(after.skip(data.len() as int) =~= contents.skip(data.len() as int));
}

/// Of two writes to the start of a buffer, the second covers the first where it is no shorter.
pub proof fn law_last_write_wins(contents: Seq<u8>, first: Seq<u8>, second: Seq<u8>)
    requires
        first.len() <= second.len() <= contents.len(),
    ensures
        written(written(contents, first), second) == written(contents, second),
{
    assert(written(written(contents, first), second) =~= written(contents, second));
}

/// Each binding gives its own GPU address, in order.
pub proof fn law_addresses_in_order<R>(bindings: Seq<&Buffer<R>>, i: int)
    requires
        0 <= i < bindings.len(),
    ensures
        addresses_of(bindings).len() == bindings.len(),
        addresses_of(bindings)[i] == bindings[i]@.gpu_address,
{
}

/// A buffer gives back the parts that it was made of.
pub proof fn law_buffer_gives_its_parts<R>(
    raw: R,
    gpu_address: u64,
    host_address: usize,
    len: usize,
    buffer: Buffer<R>,
    r_raw: &R,
    r_gpu: u64,
    r_host: usize,
    r_len: usize,
    r_empty: bool,
)
    requires
        call_ensures(Buffer::<R>::new, (raw, gpu_address, host_address, len), buffer),
        call_ensures(Buffer::<R>::raw, (&buffer,), r_raw),
        call_ensures(Buffer::<R>::gpu_address, (&buffer,), r_gpu),
        call_ensures(Buffer::<R>::contents_ptr, (&buffer,), r_host),
        call_ensures(Buffer::<R>::len, (&buffer,), r_len),
        call_ensures(Buffer::<R>::is_empty, (&buffer,), r_empty),
    ensures
        *r_raw == raw,
        r_gpu == gpu_address,
        r_host == host_address,
        r_len == len,
        r_empty <==> len == 0,
{
}

/// As many whole elements are seen as fit in the buffer: one more would not.
pub proof fn law_slice_is_the_longest<R>(buffer: &Buffer<R>, element_size: usize, r: usize)
    requires
        element_size > 0,
        call_ensures(Buffer::<R>::slice_len, (buffer, element_size), r),
    ensures
        r * element_size <= buffer@.len < (r + 1) * element_size,
{
    let n = buffer@.len as int;
    let e = element_size as int;
    assert(r == n / e);
    assert(n / e * e <= n < (n / e + 1) * e) by (nonlinear_arith)
        requires
            e > 0,
    ;
}

/// A write is refused where it is longer than the buffer, and only there.
pub proof fn law_refused_write_does_not_fit<R>(buffer: &Buffer<R>, bytes: usize, r: Option<String>)
    requires
        call_ensures(Buffer::<R>::write_refusal, (buffer, bytes), r),
    ensures
        r is Some <==> bytes > buffer@.len,
{
}

/// A write puts each byte of the data in its place from the start, and leaves the bytes behind it
/// as they were.
pub proof fn law_write_puts_each_byte<R>(buffer: &Buffer<R>, contents: &mut [u8], data: &[u8])
    requires
        data@.len() <= old(contents)@.len(),
        call_ensures(Buffer::<R>::write, (buffer, contents, data), ()),
    ensures
        final(contents)@.len() == old(contents)@.len(),
        forall|i: int| 0 <= i < data@.len() ==> #[trigger] final(contents)@[i] == data@[i],
        forall|i: int|
            data@.len() <= i < old(contents)@.len() ==> #[trigger] final(contents)@[i] == old(
                contents,
            )@[i],
{
}

/// The addresses of buffers are those of each buffer in its place.
pub proof fn law_each_buffer_gives_its_address<R>(
    bindings: &[&Buffer<R>],
    r: Vec<u64>,
    i: int,
    address: u64,
)
    requires
        call_ensures(binding_addresses::<R>, (bindings,), r),
        0 <= i < bindings@.len(),
        call_ensures(Buffer::<R>::gpu_address, (bindings@[i],), address),
    ensures
        r@.len() == bindings@.len(),
        r@[i] == address,
{
}

} // verus!
