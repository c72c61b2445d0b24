//! Deriving a sensor's stable name from its configured filesystem path.

use vstd::prelude::*;
use vstd::string::StrSliceExecFns;

verus! {

/// `s` without its trailing slashes.
pub open spec fn trim_slashes(s: Seq<char>) -> Seq<char>
    decreases s.len(),
{
    if s.len() > 0 && s.last() == '/' {
        trim_slashes(s.drop_last())
    } else {
        s
    }
}

/// The suffix of `s` after its last slash (all of `s` if it has none).
pub open spec fn after_last_slash(s: Seq<char>) -> Seq<char>
    decreases s.len(),
{
    if s.len() == 0 {
        s
    } else if s.last() == '/' {
        Seq::empty()
    } else {
        after_last_slash(s.drop_last()).push(s.last())
    }
}

/// The leaf name a path yields: its last slash-separated segment, trailing
/// slashes ignored. A path with no segment left, or whose last segment is
/// `.` or `..`, yields no leaf name.
pub open spec fn leaf_of(s: Seq<char>) -> Option<Seq<char>> {
    let t = after_last_slash(trim_slashes(s));
    if t.len() == 0 || t == seq!['.'] || t == seq!['.', '.'] {
        None
    } else {
        Some(t)
    }
}

/// The name of a sensor with kind prefix `prefix` bound to `path`:
/// `{prefix}/{leaf}`. Derived once at construction, from the path alone.
pub open spec fn name_of(prefix: Seq<char>, path: Seq<char>) -> Option<Seq<char>> {
    match leaf_of(path) {
        Some(l) => Some(prefix + seq!['/'] + l),
        None => None,
    }
}

proof fn lemma_after_no_slash(s: Seq<char>, b: int)
    requires
        0 <= b <= s.len(),
        forall|i: int| b <= i < s.len() ==> s[i] != '/',
        b == 0 || s[b - 1] == '/',
    ensures
        after_last_slash(s) == s.subrange(b, s.len() as int),
    decreases s.len() - b,
{
    if s.len() == b {
        if b == 0 {
            assert(s.subrange(0, 0) =~= s);
        } else {
            assert(s.last() == '/');
            assert(after_last_slash(s) =~= s.subrange(b, s.len() as int));
        }
    } else {
        assert(s.last() != '/');
        let t = s.drop_last();
        lemma_after_no_slash(t, b);
        assert(after_last_slash(s) == after_last_slash(t).push(s.last()));
        assert(t.subrange(b, t.len() as int).push(s.last()) =~= s.subrange(b, s.len() as int));
    }
}

/// Derives the leaf name of `path`, if it has one.
#[verifier::loop_isolation(false)]
pub fn leaf_name(path: &str) -> (r: Option<String>)
    ensures
        match r {
            Some(l) => leaf_of(path@) == Some(l@),
            None => leaf_of(path@) is None,
        },
{
    let ghost s = path@;
    let n = path.unicode_len();

    // Ignore trailing slashes.
    proof {
        assert(s.subrange(0, n as int) =~= s);
    }
    let mut e = n;
    while e > 0 && path.get_char(e - 1) == '/'
        invariant
            0 <= e <= n == s.len(),
            trim_slashes(s) == trim_slashes(s.subrange(0, e as int)),
        decreases e,
    {
        proof {
            assert(s.subrange(0, e as int).drop_last() =~= s.subrange(0, e - 1));
        }
        e -= 1;
    }
    let ghost t = s.subrange(0, e as int);
    proof {
        assert(trim_slashes(t) == t);
        assert(trim_slashes(s) == t);
    }

    // Find the start of the last segment.
    let mut b = e;
    while b > 0 && path.get_char(b - 1) != '/'
        invariant
            0 <= b <= e,
            forall|i: int| b <= i < e ==> s[i] != '/',
        decreases b,
    {
        b -= 1;
    }
    proof {
        lemma_after_no_slash(t, b as int);
        assert(t.subrange(b as int, t.len() as int) =~= s.subrange(b as int, e as int));
    }

    if b == e {
        // No segment remains: an empty path or nothing but slashes.
        return None;
    }
    let len = e - b;
    if len == 1 && path.get_char(b) == '.' {
        proof {
            assert(s.subrange(b as int, e as int) =~= seq!['.']);
        }
        return None;
    }
    if len == 2 && path.get_char(b) == '.' && path.get_char(b + 1) == '.' {
        proof {
            assert(s.subrange(b as int, e as int) =~= seq!['.', '.']);
        }
        return None;
    }
    let leaf = path.substring_char(b, e);
    proof {
        let lf = s.subrange(b as int, e as int);
        if lf == seq!['.'] {
            assert(lf.len() == 1 && lf[0] == '.');
            assert(false);
        }
        if lf == seq!['.', '.'] {
            assert(lf.len() == 2 && lf[0] == '.' && lf[1] == '.');
            assert(false);
        }
    }
    Some(leaf.to_owned())
}

} // verus!
