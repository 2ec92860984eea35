//! Shared error taxonomy for device discovery, attribute parsing and
//! register-window construction.

use vstd::prelude::*;

verus! {

/// Why a device, attribute or mapping operation failed.
///
/// `Address` is reserved for invalid offset or index arguments; no path in
/// this crate currently raises it, but it stays in the taxonomy for future
/// mapping-size validation. `Io` stands for a failed open, read, enumerate
/// or map operation performed by the unverified I/O shell; the verified code
/// itself never performs I/O, so it only ever reports `Parse`.
#[derive(Clone, Copy, Debug, PartialEq, Eq, Structural)]
pub enum UioError {
    Address,
    Io,
    Parse,
}

} // verus!
