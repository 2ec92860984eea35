//! Verified selection of sysfs directory entries: which names denote a
//! mappable PCI resource, and which denote a UIO map entry.
//!
//! The I/O shell lists a device's directory and hands the raw entry names
//! (with their sizes, where resources are concerned) to the functions here;
//! they keep exactly the entries whose names match, in the order given.

use vstd::prelude::*;

verus! {

/// The bytes of the literal entry prefix `resource`.
pub open spec fn resource_prefix() -> Seq<u8> {
    seq![114u8, 101u8, 115u8, 111u8, 117u8, 114u8, 99u8, 101u8]
}

/// The bytes of the literal entry prefix `map`.
pub open spec fn map_prefix() -> Seq<u8> {
    seq![109u8, 97u8, 112u8]
}

/// A BAR entry name: the literal prefix `resource` followed by at least one
/// further byte, so the bare name `resource` itself does not qualify.
pub open spec fn is_resource_name(s: Seq<u8>) -> bool {
    s.len() > 8 && s.take(8) == resource_prefix()
}

/// A UIO map entry name: the literal prefix `map` followed by at least one
/// further byte.
pub open spec fn is_map_name(s: Seq<u8>) -> bool {
    s.len() > 3 && s.take(3) == map_prefix()
}

/// Whether `s` begins with `prefix`.
pub fn starts_with(s: &[u8], prefix: &[u8]) -> (r: bool)
    ensures
        r == (s@.len() >= prefix@.len() && s@.take(prefix@.len() as int) == prefix@),
{
    if s.len() < prefix.len() {
        return false;
    }
    let mut i: usize = 0;
    while i < prefix.len()
        invariant
            0 <= i <= prefix@.len() <= s@.len(),
            forall|j: int| 0 <= j < i ==> s@[j] == prefix@[j],
        decreases prefix@.len() - i,
    {
        if s[i] != prefix[i] {
            proof {
                assert(s@.take(prefix@.len() as int)[i as int] != prefix@[i as int]);
            }
            return false;
        }
        i = i + 1;
    }
    proof {
        assert(s@.take(prefix@.len() as int) =~= prefix@);
    }
    true
}

/// Whether a directory entry name denotes a mappable resource.
pub fn is_resource_entry(name: &[u8]) -> (r: bool)
    ensures
        r == is_resource_name(name@),
{
    let prefix: Vec<u8> = vec![114u8, 101u8, 115u8, 111u8, 117u8, 114u8, 99u8, 101u8];
    proof {
        assert(prefix@ =~= resource_prefix());
    }
    name.len() > 8 && starts_with(name, prefix.as_slice())
}

/// Whether a directory entry name denotes a UIO map.
pub fn is_map_entry(name: &[u8]) -> (r: bool)
    ensures
        r == is_map_name(name@),
{
    let prefix: Vec<u8> = vec![109u8, 97u8, 112u8];
    proof {
        assert(prefix@ =~= map_prefix());
    }
    name.len() > 3 && starts_with(name, prefix.as_slice())
}

/// The sub-sequence of `(name, size)` entries whose name is a resource
/// entry, in the order given.
pub open spec fn resource_filter(entries: Seq<(Vec<u8>, u64)>) -> Seq<(Vec<u8>, u64)> {
    entries.filter(|e: (Vec<u8>, u64)| is_resource_name(e.0@))
}

/// The sub-sequence of names that are map entries, in the order given.
pub open spec fn map_filter(names: Seq<Vec<u8>>) -> Seq<Vec<u8>> {
    names.filter(|n: Vec<u8>| is_map_name(n@))
}

/// Keeps exactly the `(name, size)` pairs whose name begins with the
/// literal prefix `resource` and has a trailing index.
pub fn select_resources(entries: Vec<(Vec<u8>, u64)>) -> (r: Vec<(Vec<u8>, u64)>)
    ensures
        r@ == resource_filter(entries@),
{
    let ghost orig = entries@;
    let mut rest = entries;
    let mut out: Vec<(Vec<u8>, u64)> = Vec::new();
    proof {
        reveal(Seq::filter);
        assert(orig.take(0) =~= Seq::<(Vec<u8>, u64)>::empty());
    }
    while rest.len() > 0
        invariant
            rest@.len() <= orig.len(),
            rest@ =~= orig.skip(orig.len() - rest@.len()),
            out@ == resource_filter(orig.take(orig.len() - rest@.len())),
        decreases rest@.len(),
    {
        let ghost k = orig.len() - rest@.len();
        let e = rest.remove(0);
        proof {
            assert(e == orig[k]);
            assert(rest@ =~= orig.skip(k + 1));
        }
        let keep = is_resource_entry(e.0.as_slice());
        proof {
            reveal(Seq::filter);
            assert(orig.take(k + 1).drop_last() =~= orig.take(k));
            assert(orig.take(k + 1).last() == orig[k]);
        }
        if keep {
            out.push(e);
        }
    }
    proof {
        assert(orig.take(orig.len() - rest@.len()) =~= orig);
    }
    out
}

/// Keeps exactly the names that begin with the literal prefix `map` and
/// have a trailing index.
pub fn select_map_entries(names: Vec<Vec<u8>>) -> (r: Vec<Vec<u8>>)
    ensures
        r@ == map_filter(names@),
{
    let ghost orig = names@;
    let mut rest = names;
    let mut out: Vec<Vec<u8>> = Vec::new();
    proof {
        reveal(Seq::filter);
        assert(orig.take(0) =~= Seq::<Vec<u8>>::empty());
    }
    while rest.len() > 0
        invariant
            rest@.len() <= orig.len(),
            rest@ =~= orig.skip(orig.len() - rest@.len()),
            out@ == map_filter(orig.take(orig.len() - rest@.len())),
        decreases rest@.len(),
    {
        let ghost k = orig.len() - rest@.len();
        let n = rest.remove(0);
        proof {
            assert(n == orig[k]);
            assert(rest@ =~= orig.skip(k + 1));
        }
        let keep = is_map_entry(n.as_slice());
        proof {
            reveal(Seq::filter);
            assert(orig.take(k + 1).drop_last() =~= orig.take(k));
            assert(orig.take(k + 1).last() == orig[k]);
        }
        if keep {
            out.push(n);
        }
    }
    proof {
        assert(orig.take(orig.len() - rest@.len()) =~= orig);
    }
    out
}

} // verus!
