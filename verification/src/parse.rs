//! Verified parsing of sysfs attribute text: whitespace trimming, decimal
//! integers, and `0x`-prefixed hexadecimal integers.
//!
//! Attribute files hold short ASCII payloads, so every function here works
//! on byte slices; the I/O shell hands the raw file contents in and gets
//! plain values back.

use vstd::prelude::*;
use vstd::arithmetic::div_mod::{lemma_fundamental_div_mod, lemma_mod_bound};

use crate::errors::UioError;

verus! {

/// The whitespace bytes that surrounding-trim removes: space, tab, line
/// feed, vertical tab, form feed and carriage return.
pub open spec fn is_space(b: u8) -> bool {
    b == 32 || b == 9 || b == 10 || b == 11 || b == 12 || b == 13
}

pub open spec fn is_dec_digit(b: u8) -> bool {
    48 <= b <= 57
}

pub open spec fn dec_digit_value(b: u8) -> int {
    b as int - 48
}

pub open spec fn is_hex_digit(b: u8) -> bool {
    (48 <= b <= 57) || (97 <= b <= 102) || (65 <= b <= 70)
}

pub open spec fn hex_digit_value(b: u8) -> int {
    if 48 <= b <= 57 {
        b as int - 48
    } else if 97 <= b <= 102 {
        b as int - 87
    } else {
        b as int - 55
    }
}

pub open spec fn all_dec_digits(s: Seq<u8>) -> bool {
    forall|i: int| 0 <= i < s.len() ==> is_dec_digit(s[i])
}

pub open spec fn all_hex_digits(s: Seq<u8>) -> bool {
    forall|i: int| 0 <= i < s.len() ==> is_hex_digit(s[i])
}

/// A well-formed decimal numeral: non-empty and digits only.
pub open spec fn dec_number(s: Seq<u8>) -> bool {
    s.len() > 0 && all_dec_digits(s)
}

/// A well-formed hexadecimal numeral: non-empty and hex digits only.
pub open spec fn hex_number(s: Seq<u8>) -> bool {
    s.len() > 0 && all_hex_digits(s)
}

/// The integer a decimal numeral denotes.
pub open spec fn dec_value(s: Seq<u8>) -> int
    decreases s.len(),
{
    if s.len() == 0 {
        0
    } else {
        10 * dec_value(s.drop_last()) + dec_digit_value(s.last())
    }
}

/// The integer a hexadecimal numeral denotes.
pub open spec fn hex_value(s: Seq<u8>) -> int
    decreases s.len(),
{
    if s.len() == 0 {
        0
    } else {
        16 * hex_value(s.drop_last()) + hex_digit_value(s.last())
    }
}

/// A two-byte `0x` radix prefix.
pub open spec fn has_hex_prefix(s: Seq<u8>) -> bool {
    s.len() >= 2 && s[0] == 48 && s[1] == 120
}

proof fn lemma_dec_value_nonneg(s: Seq<u8>)
    requires
        all_dec_digits(s),
    ensures
        dec_value(s) >= 0,
    decreases s.len(),
{
    if s.len() > 0 {
        assert(all_dec_digits(s.drop_last()));
        lemma_dec_value_nonneg(s.drop_last());
    }
}

proof fn lemma_hex_value_nonneg(s: Seq<u8>)
    requires
        all_hex_digits(s),
    ensures
        hex_value(s) >= 0,
    decreases s.len(),
{
    if s.len() > 0 {
        assert(all_hex_digits(s.drop_last()));
        lemma_hex_value_nonneg(s.drop_last());
    }
}

/// A decimal numeral's value only grows as more digits follow a prefix.
proof fn lemma_dec_value_prefix(s: Seq<u8>, i: int)
    requires
        all_dec_digits(s),
        0 <= i <= s.len(),
    ensures
        dec_value(s.take(i)) <= dec_value(s),
    decreases s.len() - i,
{
    if i == s.len() {
        assert(s.take(i) =~= s);
    } else {
        assert(s.take(i + 1).drop_last() =~= s.take(i));
        assert(all_dec_digits(s.take(i)));
        lemma_dec_value_nonneg(s.take(i));
        assert(dec_value(s.take(i + 1)) == 10 * dec_value(s.take(i)) + dec_digit_value(s[i]));
        lemma_dec_value_prefix(s, i + 1);
    }
}

proof fn lemma_hex_value_prefix(s: Seq<u8>, i: int)
    requires
        all_hex_digits(s),
        0 <= i <= s.len(),
    ensures
        hex_value(s.take(i)) <= hex_value(s),
    decreases s.len() - i,
{
    if i == s.len() {
        assert(s.take(i) =~= s);
    } else {
        assert(s.take(i + 1).drop_last() =~= s.take(i));
        assert(all_hex_digits(s.take(i)));
        lemma_hex_value_nonneg(s.take(i));
        assert(hex_value(s.take(i + 1)) == 16 * hex_value(s.take(i)) + hex_digit_value(s[i]));
        lemma_hex_value_prefix(s, i + 1);
    }
}

/// `acc * base + d` stays within `u64::MAX` exactly when `acc` is at most
/// `(u64::MAX - d) / base`.
proof fn lemma_accumulate_bound(acc: int, d: int, base: int)
    requires
        0 <= acc,
        0 <= d < base,
        base == 10 || base == 16,
    ensures
        acc <= (u64::MAX - d) / base <==> base * acc + d <= u64::MAX,
{
    let q = (u64::MAX - d) / base;
    lemma_fundamental_div_mod(u64::MAX - d, base);
    lemma_mod_bound(u64::MAX - d, base);
}

fn is_space_byte(b: u8) -> (r: bool)
    ensures
        r == is_space(b),
{
    b == 32 || b == 9 || b == 10 || b == 11 || b == 12 || b == 13
}

/// `s` with any leading whitespace removed.
pub open spec fn trim_front(s: Seq<u8>) -> Seq<u8>
    decreases s.len(),
{
    if s.len() == 0 {
        s
    } else if is_space(s[0]) {
        trim_front(s.skip(1))
    } else {
        s
    }
}

/// `s` with any trailing whitespace removed.
pub open spec fn trim_back(s: Seq<u8>) -> Seq<u8>
    decreases s.len(),
{
    if s.len() == 0 {
        s
    } else if is_space(s.last()) {
        trim_back(s.drop_last())
    } else {
        s
    }
}

/// `s` with surrounding whitespace removed; interior bytes are untouched.
pub open spec fn trim_spec(s: Seq<u8>) -> Seq<u8> {
    trim_back(trim_front(s))
}

proof fn lemma_trim_front_is_suffix(s: Seq<u8>)
    ensures
        exists|i: int| 0 <= i <= s.len() && trim_front(s) == s.skip(i),
    decreases s.len(),
{
    if s.len() > 0 && is_space(s[0]) {
        lemma_trim_front_is_suffix(s.skip(1));
        let i = choose|i: int| 0 <= i <= s.skip(1).len() && trim_front(s.skip(1)) == s.skip(
            1,
        ).skip(i);
        assert(s.skip(1).skip(i) =~= s.skip(1 + i));
        assert(trim_front(s) == s.skip(1 + i));
    } else {
        assert(s.skip(0) =~= s);
        assert(trim_front(s) == s.skip(0));
    }
}

proof fn lemma_trim_back_is_prefix(s: Seq<u8>)
    ensures
        exists|j: int| 0 <= j <= s.len() && trim_back(s) == s.take(j),
    decreases s.len(),
{
    if s.len() > 0 && is_space(s.last()) {
        lemma_trim_back_is_prefix(s.drop_last());
        let j = choose|j: int| 0 <= j <= s.drop_last().len() && trim_back(s.drop_last())
            == s.drop_last().take(j);
        assert(s.drop_last().take(j) =~= s.take(j));
        assert(trim_back(s) == s.take(j));
    } else {
        assert(s.take(s.len() as int) =~= s);
        assert(trim_back(s) == s.take(s.len() as int));
    }
}

/// Trimming never alters interior content: the result is one contiguous
/// slice of the input.
pub proof fn lemma_trim_is_interior_slice(s: Seq<u8>)
    ensures
        exists|i: int, j: int|
            0 <= i <= j <= s.len() && trim_spec(s) == s.subrange(i, j),
{
    lemma_trim_front_is_suffix(s);
    let i = choose|i: int| 0 <= i <= s.len() && trim_front(s) == s.skip(i);
    lemma_trim_back_is_prefix(s.skip(i));
    let j = choose|j: int| 0 <= j <= s.skip(i).len() && trim_back(s.skip(i)) == s.skip(i).take(j);
    assert(s.skip(i).take(j) =~= s.subrange(i, i + j));
    assert(trim_spec(s) == s.subrange(i, i + j));
}

/// Removes surrounding whitespace, keeping the interior exactly as read.
pub fn trim_bytes(s: &[u8]) -> (r: Vec<u8>)
    ensures
        r@ == trim_spec(s@),
{
    let mut start: usize = 0;
    proof {
        assert(s@.skip(0) =~= s@);
    }
    while start < s.len() && is_space_byte(s[start])
        invariant
            0 <= start <= s@.len(),
            trim_front(s@) == trim_front(s@.skip(start as int)),
        decreases s@.len() - start,
    {
        proof {
            assert(s@.skip(start as int).skip(1) =~= s@.skip(start as int + 1));
            assert(s@.skip(start as int)[0] == s@[start as int]);
        }
        start = start + 1;
    }
    proof {
        if start < s@.len() {
            assert(s@.skip(start as int)[0] == s@[start as int]);
            assert(trim_front(s@) == s@.skip(start as int));
        } else {
            assert(s@.skip(start as int) =~= Seq::<u8>::empty());
        }
        assert(s@.skip(start as int) =~= s@.subrange(start as int, s@.len() as int));
    }
    let mut end: usize = s.len();
    while end > start && is_space_byte(s[end - 1])
        invariant
            start <= end <= s@.len(),
            trim_front(s@) == s@.subrange(start as int, s@.len() as int),
            trim_spec(s@) == trim_back(s@.subrange(start as int, end as int)),
        decreases end,
    {
        proof {
            let sub = s@.subrange(start as int, end as int);
            assert(sub.drop_last() =~= s@.subrange(start as int, end as int - 1));
            assert(sub.last() == s@[end as int - 1]);
        }
        end = end - 1;
    }
    proof {
        let sub = s@.subrange(start as int, end as int);
        if end > start {
            assert(sub.last() == s@[end as int - 1]);
            assert(trim_spec(s@) == sub);
        } else {
            assert(sub =~= Seq::<u8>::empty());
        }
    }
    let mut out: Vec<u8> = Vec::new();
    let mut i: usize = start;
    while i < end
        invariant
            start <= i <= end <= s@.len(),
            out@ =~= s@.subrange(start as int, i as int),
        decreases end - i,
    {
        out.push(s[i]);
        proof {
            assert(out@ =~= s@.subrange(start as int, i as int + 1));
        }
        i = i + 1;
    }
    proof {
        assert(out@ =~= s@.subrange(start as int, end as int));
    }
    out
}

/// Parses a decimal numeral. Returns the denoted value exactly when the
/// input is a non-empty run of decimal digits whose value fits in a `u64`;
/// every other input is a `Parse` failure.
pub fn parse_decimal_u64(s: &[u8]) -> (r: Result<u64, UioError>)
    ensures
        r is Ok <==> dec_number(s@) && dec_value(s@) <= u64::MAX,
        r matches Ok(v) ==> v == dec_value(s@),
        r matches Err(e) ==> e == UioError::Parse,
{
    if s.len() == 0 {
        return Err(UioError::Parse);
    }
    let mut acc: u64 = 0;
    let mut i: usize = 0;
    while i < s.len()
        invariant
            0 <= i <= s@.len(),
            s@.len() > 0,
            forall|j: int| 0 <= j < i ==> is_dec_digit(s@[j]),
            acc == dec_value(s@.take(i as int)),
        decreases s@.len() - i,
    {
        let b = s[i];
        if b < 48 || b > 57 {
            proof {
                assert(!is_dec_digit(s@[i as int]));
            }
            return Err(UioError::Parse);
        }
        let d: u64 = (b - 48) as u64;
        proof {
            assert(s@.take(i as int + 1).drop_last() =~= s@.take(i as int));
            assert(s@.take(i as int + 1).last() == s@[i as int]);
        }
        if acc > (u64::MAX - d) / 10 {
            proof {
                lemma_accumulate_bound(acc as int, d as int, 10);
                assert(dec_value(s@.take(i as int + 1)) > u64::MAX);
                if all_dec_digits(s@) {
                    lemma_dec_value_prefix(s@, i as int + 1);
                }
            }
            return Err(UioError::Parse);
        }
        proof {
            lemma_accumulate_bound(acc as int, d as int, 10);
        }
        acc = acc * 10 + d;
        i = i + 1;
    }
    proof {
        assert(s@.take(i as int) =~= s@);
    }
    Ok(acc)
}

/// Parses a decimal numeral into a `u32`; values beyond `u32::MAX` are a
/// `Parse` failure, as with a typed parse in the attribute reader.
pub fn parse_decimal_u32(s: &[u8]) -> (r: Result<u32, UioError>)
    ensures
        r is Ok <==> dec_number(s@) && dec_value(s@) <= u32::MAX,
        r matches Ok(v) ==> v == dec_value(s@),
        r matches Err(e) ==> e == UioError::Parse,
{
    match parse_decimal_u64(s) {
        Ok(v) => {
            if v <= u32::MAX as u64 {
                Ok(v as u32)
            } else {
                Err(UioError::Parse)
            }
        },
        Err(e) => Err(e),
    }
}

/// Parses a decimal numeral into a `usize`.
pub fn parse_decimal_usize(s: &[u8]) -> (r: Result<usize, UioError>)
    ensures
        r is Ok <==> dec_number(s@) && dec_value(s@) <= usize::MAX,
        r matches Ok(v) ==> v == dec_value(s@),
        r matches Err(e) ==> e == UioError::Parse,
{
    match parse_decimal_u64(s) {
        Ok(v) => {
            if v <= usize::MAX as u64 {
                Ok(v as usize)
            } else {
                Err(UioError::Parse)
            }
        },
        Err(e) => Err(e),
    }
}

fn hex_digit_of(b: u8) -> (r: Option<u8>)
    ensures
        r matches Some(v) ==> is_hex_digit(b) && v == hex_digit_value(b),
        r is None ==> !is_hex_digit(b),
{
    if 48 <= b && b <= 57 {
        Some(b - 48)
    } else if 97 <= b && b <= 102 {
        Some(b - 87)
    } else if 65 <= b && b <= 70 {
        Some(b - 55)
    } else {
        None
    }
}

/// Parses a bare hexadecimal numeral (no radix prefix); digits of either
/// case are accepted.
pub fn parse_hex_digits(s: &[u8]) -> (r: Result<u64, UioError>)
    ensures
        r is Ok <==> hex_number(s@) && hex_value(s@) <= u64::MAX,
        r matches Ok(v) ==> v == hex_value(s@),
        r matches Err(e) ==> e == UioError::Parse,
{
    if s.len() == 0 {
        return Err(UioError::Parse);
    }
    let mut acc: u64 = 0;
    let mut i: usize = 0;
    while i < s.len()
        invariant
            0 <= i <= s@.len(),
            s@.len() > 0,
            forall|j: int| 0 <= j < i ==> is_hex_digit(s@[j]),
            acc == hex_value(s@.take(i as int)),
        decreases s@.len() - i,
    {
        let b = s[i];
        let d: u64 = match hex_digit_of(b) {
            Some(v) => v as u64,
            None => {
                proof {
                    assert(!is_hex_digit(s@[i as int]));
                }
                return Err(UioError::Parse);
            },
        };
        proof {
            assert(s@.take(i as int + 1).drop_last() =~= s@.take(i as int));
            assert(s@.take(i as int + 1).last() == s@[i as int]);
        }
        if acc > (u64::MAX - d) / 16 {
            proof {
                lemma_accumulate_bound(acc as int, d as int, 16);
                assert(hex_value(s@.take(i as int + 1)) > u64::MAX);
                if all_hex_digits(s@) {
                    lemma_hex_value_prefix(s@, i as int + 1);
                }
            }
            return Err(UioError::Parse);
        }
        proof {
            lemma_accumulate_bound(acc as int, d as int, 16);
        }
        acc = acc * 16 + d;
        i = i + 1;
    }
    proof {
        assert(s@.take(i as int) =~= s@);
    }
    Ok(acc)
}

/// Parses a raw hexadecimal attribute such as a physical address: the text
/// must carry a literal `0x` prefix, and everything after it must be hex
/// digits — trailing bytes, a newline included, are a `Parse` failure.
pub fn parse_hex_attr(s: &[u8]) -> (r: Result<u64, UioError>)
    ensures
        r is Ok <==> has_hex_prefix(s@) && hex_number(s@.skip(2)) && hex_value(s@.skip(2))
            <= u64::MAX,
        r matches Ok(v) ==> v == hex_value(s@.skip(2)),
        r matches Err(e) ==> e == UioError::Parse,
{
    if s.len() < 2 || s[0] != 48 || s[1] != 120 {
        return Err(UioError::Parse);
    }
    let rest = vstd::slice::slice_subrange(s, 2, s.len());
    proof {
        assert(rest@ =~= s@.skip(2));
    }
    parse_hex_digits(rest)
}

/// The value of a vendor/device identity attribute: a `0x` prefix stripped,
/// surrounding whitespace then trimmed, and the remainder read as hex.
pub open spec fn hex_id_value(s: Seq<u8>) -> Option<int> {
    if has_hex_prefix(s) && hex_number(trim_spec(s.skip(2))) && hex_value(trim_spec(s.skip(2)))
        <= u32::MAX {
        Some(hex_value(trim_spec(s.skip(2))))
    } else {
        None
    }
}

/// Parses a hardware-identity attribute (`vendor`, `device`): strips the
/// two-byte `0x` radix prefix, trims the surrounding whitespace the kernel
/// appends, and reads the rest as a hexadecimal identifier.
pub fn parse_hex_id(s: &[u8]) -> (r: Result<u32, UioError>)
    ensures
        r is Ok <==> hex_id_value(s@) is Some,
        r matches Ok(v) ==> hex_id_value(s@) == Some(v as int),
        r matches Err(e) ==> e == UioError::Parse,
{
    if s.len() < 2 || s[0] != 48 || s[1] != 120 {
        return Err(UioError::Parse);
    }
    let rest = vstd::slice::slice_subrange(s, 2, s.len());
    proof {
        assert(rest@ =~= s@.skip(2));
    }
    let trimmed = trim_bytes(rest);
    match parse_hex_digits(trimmed.as_slice()) {
        Ok(v) => {
            if v <= u32::MAX as u64 {
                Ok(v as u32)
            } else {
                Err(UioError::Parse)
            }
        },
        Err(e) => Err(e),
    }
}

} // verus!
