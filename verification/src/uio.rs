//! The identity of a UIO-exposed device.
//!
//! A device is named by a numeric index; that index alone determines the
//! sysfs subtree (`/sys/class/uio/uio<N>/...`) used for every attribute
//! and mapping lookup, so two handles with equal indices see the same
//! attributes. The I/O shell owns the open device file; the index logic —
//! including the name-to-index derivation — lives here, verified.

use vstd::prelude::*;
use vstd::arithmetic::div_mod::{lemma_fundamental_div_mod, lemma_mod_bound};

use crate::errors::UioError;
use crate::parse::{dec_number, dec_value, parse_decimal_usize};

verus! {

/// Bytes of the fixed three-character device-name prefix `uio`.
pub open spec fn uio_prefix() -> Seq<u8> {
    seq![117u8, 105u8, 111u8]
}

/// Page size assumed for device-file map offsets.
pub const PAGESIZE: usize = 4096;

/// The index a device name denotes: the fixed three-character prefix is
/// stripped and the remainder must be a decimal numeral that fits the
/// platform's index type.
pub open spec fn uio_name_index(s: Seq<u8>) -> Option<int> {
    if s.len() > 3 && dec_number(s.skip(3)) && dec_value(s.skip(3)) <= usize::MAX {
        Some(dec_value(s.skip(3)))
    } else {
        None
    }
}

/// One enumerable UIO device, identified by its numeric index.
pub struct UioDevice {
    uio_num: usize,
}

impl UioDevice {
    /// The device index, which fixes the sysfs subtree of every lookup.
    pub closed spec fn index(&self) -> int {
        self.uio_num as int
    }

    /// Binds a handle to the device with the given index.
    pub fn new(uio_num: usize) -> (r: UioDevice)
        ensures
            r.index() == uio_num,
    {
        UioDevice { uio_num }
    }

    /// Derives the index from a device name such as `uio3` by stripping
    /// the fixed three-character prefix and parsing the decimal remainder;
    /// a non-numeric or missing remainder is a `Parse` failure.
    pub fn new_by_name(uio_name: &[u8]) -> (r: Result<UioDevice, UioError>)
        ensures
            r is Ok <==> uio_name_index(uio_name@) is Some,
            r matches Ok(d) ==> Some(d.index()) == uio_name_index(uio_name@),
            r matches Err(e) ==> e == UioError::Parse,
    {
        if uio_name.len() <= 3 {
            return Err(UioError::Parse);
        }
        let suffix = vstd::slice::slice_subrange(uio_name, 3, uio_name.len());
        proof {
            assert(suffix@ =~= uio_name@.skip(3));
        }
        match parse_decimal_usize(suffix) {
            Ok(n) => Ok(UioDevice { uio_num: n }),
            Err(e) => Err(e),
        }
    }

    /// The numeric index this handle is bound to.
    pub fn dev_num(&self) -> (r: usize)
        ensures
            r == self.index(),
    {
        self.uio_num
    }
}

/// Byte offset at which the device file exposes its mapping with the given
/// index: one fixed page per mapping, so the offset is always page-aligned.
pub fn map_mapping_offset(mapping: usize) -> (r: usize)
    requires
        mapping * PAGESIZE <= usize::MAX,
    ensures
        r == mapping * PAGESIZE,
        r % PAGESIZE == 0,
{
    proof {
        vstd::arithmetic::div_mod::lemma_mod_multiples_basic(mapping as int, PAGESIZE as int);
    }
    mapping * PAGESIZE
}

/// The decimal numeral denoting `n`, most significant digit first.
pub open spec fn dec_digits_of(n: nat) -> Seq<u8>
    decreases n,
{
    if n < 10 {
        seq![(48 + n) as u8]
    } else {
        dec_digits_of(n / 10).push((48 + n % 10) as u8)
    }
}

/// Rendering an index as decimal digits and reading the numeral back are
/// inverse to each other.
pub proof fn lemma_dec_digits_of(n: nat)
    ensures
        dec_number(dec_digits_of(n)),
        dec_value(dec_digits_of(n)) == n,
    decreases n,
{
    if n < 10 {
        let s = dec_digits_of(n);
        assert(s.drop_last() =~= Seq::<u8>::empty());
        assert(s.last() == (48 + n) as u8);
        assert(dec_value(Seq::<u8>::empty()) == 0);
        assert(dec_value(s) == 10 * dec_value(s.drop_last()) + crate::parse::dec_digit_value(
            s.last(),
        ));
        assert(dec_value(s) == n);
    } else {
        lemma_dec_digits_of(n / 10);
        let s = dec_digits_of(n / 10);
        let full = s.push((48 + n % 10) as u8);
        lemma_fundamental_div_mod(n as int, 10);
        lemma_mod_bound(n as int, 10);
        assert(full.drop_last() =~= s);
        assert(full.last() == (48 + n % 10) as u8);
        assert(forall|i: int|
            0 <= i < full.len() ==> crate::parse::is_dec_digit(#[trigger] full[i]));
    }
}

/// The name under which the device with index `n` appears: the fixed
/// prefix followed by the decimal digits of `n`.
pub open spec fn uio_name_of(n: nat) -> Seq<u8> {
    uio_prefix() + dec_digits_of(n)
}

/// Opening a device by its derived name and opening it by its index bind
/// to the same index, so every later attribute read agrees.
pub proof fn lemma_open_by_name_matches_open(n: usize)
    ensures
        uio_name_index(uio_name_of(n as nat)) == Some(n as int),
{
    lemma_dec_digits_of(n as nat);
    assert(uio_name_of(n as nat).skip(3) =~= dec_digits_of(n as nat));
}

} // verus!
