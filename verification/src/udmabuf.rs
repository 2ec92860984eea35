//! Identity of a kernel-managed physically-contiguous DMA buffer.
//!
//! A buffer is named; the name alone determines the sysfs subtree holding
//! its `size` (decimal) and `phys` (hex, `0x`-prefixed) attributes and the
//! device file that is mapped. The I/O shell reads those files and maps
//! the device; the attribute contents are parsed by the verified parsers
//! of this crate, strictly — neither attribute is trimmed before parsing.

use vstd::prelude::*;

verus! {

/// One named physically-contiguous buffer exposed by the kernel.
pub struct Udmabuf {
    name: String,
}

impl Udmabuf {
    /// The buffer's name, which fixes the sysfs subtree of every lookup.
    pub closed spec fn name_spec(&self) -> Seq<char> {
        self.name@
    }

    /// Binds a handle to the buffer with the given name.
    pub fn named(name: String) -> (r: Udmabuf)
        ensures
            r.name_spec() == name@,
    {
        Udmabuf { name }
    }

    /// The name this handle is bound to.
    pub fn name(&self) -> (r: &String)
        ensures
            r@ == self.name_spec(),
    {
        &self.name
    }
}

} // verus!
