//! A process-address-space view over a kernel-exposed memory region.
//!
//! The region is backed by a writable memory map; its contents are modelled
//! as a byte sequence, and all access goes through bounds-checked one-byte
//! accessors. The contracts describe the region as ordinary memory: a read
//! returns the byte most recently written at that index. A region over live
//! hardware registers may additionally change under the device's own hand;
//! this model, like the mock register file used in tests, does not capture
//! such self-updates.

use vstd::prelude::*;

verus! {

/// `memmap::MmapMut`, the writable memory map every register window is
/// built on. Declared opaque: its bytes are reached only through the
/// accessors below.
#[verifier::external_type_specification]
#[verifier::external_body]
pub struct ExMmapMut(memmap::MmapMut);

/// The bytes a writable memory map currently holds.
pub uninterp spec fn mmap_bytes(m: memmap::MmapMut) -> Seq<u8>;

/// Relies on `memmap::MmapMut`'s `Deref` to `[u8]`: the slice's length is
/// the length of the mapping.
#[verifier::external_body]
fn mmap_len(m: &memmap::MmapMut) -> (r: usize)
    ensures
        r == mmap_bytes(*m).len(),
{
    m.len()
}

/// Relies on `memmap::MmapMut`'s `Deref` to `[u8]`: reads the byte at
/// index `i` of the mapping.
#[verifier::external_body]
fn mmap_byte_at(m: &memmap::MmapMut, i: usize) -> (r: u8)
    requires
        i < mmap_bytes(*m).len(),
    ensures
        r == mmap_bytes(*m)[i as int],
{
    m[i]
}

/// Relies on `memmap::MmapMut`'s `DerefMut` to `[u8]`: writes the byte at
/// index `i` of the mapping.
#[verifier::external_body]
fn mmap_set_byte(m: &mut memmap::MmapMut, i: usize, v: u8)
    requires
        i < mmap_bytes(*old(m)).len(),
    ensures
        mmap_bytes(*final(m)) == mmap_bytes(*old(m)).update(i as int, v),
{
    m[i] = v;
}

/// A writable view over `[0, size)` bytes of one mapped region. Whoever
/// holds it owns it exclusively; the register driver takes ownership of
/// its window at construction, so a window never outlives its region.
pub struct MappedResource {
    map: memmap::MmapMut,
}

impl View for MappedResource {
    type V = Seq<u8>;

    closed spec fn view(&self) -> Seq<u8> {
        mmap_bytes(self.map)
    }
}

impl MappedResource {
    /// Wraps an already-established memory map; the I/O shell obtains the
    /// map from a resource file or the device file and hands it over here.
    pub fn new(map: memmap::MmapMut) -> (r: MappedResource)
        ensures
            r@ == mmap_bytes(map),
    {
        MappedResource { map }
    }

    /// The region's size in bytes.
    pub fn len(&self) -> (r: usize)
        ensures
            r == self@.len(),
    {
        mmap_len(&self.map)
    }

    /// Reads the byte at index `i` of the region.
    pub(crate) fn byte_at(&self, i: usize) -> (r: u8)
        requires
            i < self@.len(),
        ensures
            r == self@[i as int],
    {
        mmap_byte_at(&self.map, i)
    }

    /// Writes the byte at index `i` of the region.
    pub(crate) fn set_byte(&mut self, i: usize, v: u8)
        requires
            i < old(self)@.len(),
        ensures
            final(self)@ == old(self)@.update(i as int, v),
    {
        mmap_set_byte(&mut self.map, i, v)
    }
}

} // verus!
