//! Parsing of raw sensor files: whitespace-trimmed decimal text.

use vstd::prelude::*;

verus! {

/// ASCII whitespace, as trimmed from the surroundings of a raw value.
pub open spec fn is_space(b: u8) -> bool {
    b == 32 || b == 9 || b == 10 || b == 13 || b == 11 || b == 12
}

/// `s` with leading whitespace removed.
pub open spec fn trim_front(s: Seq<u8>) -> Seq<u8>
    decreases s.len(),
{
    if s.len() > 0 && is_space(s[0]) {
        trim_front(s.drop_first())
    } else {
        s
    }
}

/// `s` with trailing whitespace removed.
pub open spec fn trim_back(s: Seq<u8>) -> Seq<u8>
    decreases s.len(),
{
    if s.len() > 0 && is_space(s.last()) {
        trim_back(s.drop_last())
    } else {
        s
    }
}

/// `s` with surrounding whitespace removed.
pub open spec fn trimmed(s: Seq<u8>) -> Seq<u8> {
    trim_back(trim_front(s))
}

/// An ASCII decimal digit.
pub open spec fn is_digit(b: u8) -> bool {
    48 <= b <= 57
}

pub open spec fn all_digits(s: Seq<u8>) -> bool {
    forall|i: int| 0 <= i < s.len() ==> is_digit(#[trigger] s[i])
}

/// The number denoted by a digit string, most significant digit first.
pub open spec fn dec_val(s: Seq<u8>) -> nat
    decreases s.len(),
{
    if s.len() == 0 {
        0
    } else {
        dec_val(s.drop_last()) * 10 + (if s.last() >= 48 {
            (s.last() - 48) as nat
        } else {
            0
        })
    }
}

/// `s` without its single optional leading `+` sign.
pub open spec fn unsigned_part(s: Seq<u8>) -> Seq<u8> {
    if s.len() > 0 && s[0] == 43 {
        s.drop_first()
    } else {
        s
    }
}

/// What a (whitespace-trimmed) byte string parses to as a `u64`: after an
/// optional `+` sign there must be one or more decimal digits denoting a
/// value that fits in 64 bits; anything else does not parse.
pub open spec fn parse_u64_spec(s: Seq<u8>) -> Option<u64> {
    let d = unsigned_part(s);
    if d.len() > 0 && all_digits(d) && dec_val(d) <= u64::MAX {
        Some(dec_val(d) as u64)
    } else {
        None
    }
}

proof fn lemma_trim_front_subrange(s: Seq<u8>, i: int)
    requires
        0 <= i <= s.len(),
        forall|j: int| 0 <= j < i ==> is_space(#[trigger] s[j]),
    ensures
        trim_front(s) == trim_front(s.subrange(i, s.len() as int)),
    decreases i,
{
    if i > 0 {
        assert(s.len() > 0 && is_space(s[0]));
        assert(trim_front(s) == trim_front(s.drop_first()));
        let t = s.drop_first();
        assert(forall|j: int| 0 <= j < i - 1 ==> is_space(#[trigger] t[j]));
        lemma_trim_front_subrange(t, i - 1);
        assert(t.subrange(i - 1, t.len() as int) =~= s.subrange(i, s.len() as int));
    } else {
        assert(s.subrange(0, s.len() as int) =~= s);
    }
}

proof fn lemma_trim_back_subrange(s: Seq<u8>, j: int)
    requires
        0 <= j <= s.len(),
        forall|k: int| j <= k < s.len() ==> is_space(#[trigger] s[k]),
    ensures
        trim_back(s) == trim_back(s.subrange(0, j)),
    decreases s.len() - j,
{
    if j < s.len() {
        assert(s.len() > 0 && is_space(s.last()));
        assert(trim_back(s) == trim_back(s.drop_last()));
        let t = s.drop_last();
        assert(forall|k: int| j <= k < t.len() ==> is_space(#[trigger] t[k]));
        lemma_trim_back_subrange(t, j);
        assert(t.subrange(0, j) =~= s.subrange(0, j));
    } else {
        assert(s.subrange(0, s.len() as int) =~= s);
    }
}

proof fn lemma_trim_front_clean(s: Seq<u8>)
    requires
        s.len() == 0 || !is_space(s[0]),
    ensures
        trim_front(s) == s,
{
}

proof fn lemma_trim_back_clean(s: Seq<u8>)
    requires
        s.len() == 0 || !is_space(s.last()),
    ensures
        trim_back(s) == s,
{
}

/// Appending digits never shrinks the denoted value.
proof fn lemma_dec_val_prefix(s: Seq<u8>, n: int)
    requires
        0 <= n <= s.len(),
    ensures
        dec_val(s) >= dec_val(s.subrange(0, n)),
    decreases s.len() - n,
{
    if n < s.len() {
        let t = s.drop_last();
        assert(dec_val(s) >= dec_val(t) * 10) by {
            assert(dec_val(s) == dec_val(t) * 10 + (if s.last() >= 48 {
                (s.last() - 48) as nat
            } else {
                0
            }));
        }
        assert(dec_val(t) * 10 >= dec_val(t)) by (nonlinear_arith);
        lemma_dec_val_prefix(t, n);
        assert(t.subrange(0, n) =~= s.subrange(0, n));
    } else {
        assert(s.subrange(0, n) =~= s);
    }
}

fn is_space_byte(b: u8) -> (r: bool)
    ensures
        r == is_space(b),
{
    b == 32 || b == 9 || b == 10 || b == 13 || b == 11 || b == 12
}

/// Parses `bytes`, after trimming surrounding whitespace, as an unsigned
/// decimal number; `None` exactly when the trimmed text does not denote a
/// value that fits in a `u64`.
#[verifier::loop_isolation(false)]
pub fn parse_u64(bytes: &Vec<u8>) -> (r: Option<u64>)
    ensures
        r == parse_u64_spec(trimmed(bytes@)),
{
    let ghost s = bytes@;
    let n = bytes.len();

    // Trim leading whitespace.
    let mut lo: usize = 0;
    while lo < n && is_space_byte(bytes[lo])
        invariant
            0 <= lo <= n == s.len(),
            s == bytes@,
            forall|j: int| 0 <= j < lo ==> is_space(#[trigger] s[j]),
        decreases n - lo,
    {
        lo += 1;
    }
    proof {
        lemma_trim_front_subrange(s, lo as int);
    }
    let ghost f = s.subrange(lo as int, n as int);
    proof {
        lemma_trim_front_clean(f);
        assert(trim_front(s) == f);
    }

    // Trim trailing whitespace.
    let mut hi: usize = n;
    while hi > lo && is_space_byte(bytes[hi - 1])
        invariant
            lo <= hi <= n == s.len(),
            s == bytes@,
            forall|k: int| hi <= k < n ==> is_space(#[trigger] s[k]),
        decreases hi,
    {
        hi -= 1;
    }
    let ghost t = s.subrange(lo as int, hi as int);
    proof {
        assert(forall|k: int| hi - lo <= k < f.len() ==> is_space(#[trigger] f[k]));
        lemma_trim_back_subrange(f, hi - lo);
        assert(f.subrange(0, hi - lo) =~= t);
        if hi > lo {
            assert(t.last() == s[hi - 1]);
        }
        lemma_trim_back_clean(t);
        assert(trimmed(s) == t);
    }

    // Skip a single optional '+' sign.
    let start: usize = if lo < hi && bytes[lo] == 43 {
        lo + 1
    } else {
        lo
    };
    let ghost d = s.subrange(start as int, hi as int);
    proof {
        if lo < hi && s[lo as int] == 43 {
            assert(d =~= unsigned_part(t));
        } else {
            assert(d =~= unsigned_part(t));
        }
    }

    if start == hi {
        // No digits at all.
        return None;
    }

    // Accumulate the digits; a value beyond u64 is rejected.
    let mut acc: u128 = 0;
    let mut i: usize = start;
    while i < hi
        invariant
            start <= i <= hi <= n == s.len(),
            s == bytes@,
            start < hi,
            d == s.subrange(start as int, hi as int),
            all_digits(s.subrange(start as int, i as int)),
            acc == dec_val(s.subrange(start as int, i as int)),
            acc <= u64::MAX,
        decreases hi - i,
    {
        let b = bytes[i];
        if b < 48 || b > 57 {
            proof {
                assert(d[i - start] == s[i as int]);
                assert(!is_digit(d[i - start]));
                assert(!all_digits(d));
            }
            return None;
        }
        let ghost pre = s.subrange(start as int, i as int);
        let ghost cur = s.subrange(start as int, i + 1);
        proof {
            assert(cur.drop_last() =~= pre);
            assert(cur.last() == s[i as int]);
        }
        acc = acc * 10 + ((b - 48) as u128);
        i += 1;
        if acc > u64::MAX as u128 {
            proof {
                lemma_dec_val_prefix(d, i - start);
                assert(d.subrange(0, i - start) =~= s.subrange(start as int, i as int));
                if all_digits(d) {
                    assert(dec_val(d) > u64::MAX);
                }
            }
            return None;
        }
    }
    proof {
        assert(s.subrange(start as int, i as int) =~= d);
    }
    Some(acc as u64)
}

} // verus!
