//! Byte-string helpers: whitespace trimming and length-bound checks shared by
//! the validation rules. Trimming considers exactly the ASCII whitespace
//! bytes (space, tab, line feed, vertical tab, form feed, carriage return);
//! multi-byte whitespace characters are kept.
use vstd::prelude::*;

verus! {

/// Whether a byte is ASCII whitespace (space, tab, line feed, vertical tab,
/// form feed, or carriage return).
pub open spec fn is_space(b: u8) -> bool {
    b == 32 || (9 <= b && b <= 13)
}

/// How many whitespace bytes `s` starts with.
pub open spec fn leading_spaces(s: Seq<u8>) -> int
    decreases s.len(),
{
    if s.len() == 0 {
        0
    } else if is_space(s[0]) {
        1 + leading_spaces(s.drop_first())
    } else {
        0
    }
}

/// How many whitespace bytes `s` ends with.
pub open spec fn trailing_spaces(s: Seq<u8>) -> int
    decreases s.len(),
{
    if s.len() == 0 {
        0
    } else if is_space(s[s.len() - 1]) {
        1 + trailing_spaces(s.drop_last())
    } else {
        0
    }
}

/// The length of `s` once ASCII whitespace is trimmed from both ends.
pub open spec fn spec_trimmed_len(s: Seq<u8>) -> int {
    if leading_spaces(s) == s.len() {
        0
    } else {
        s.len() - leading_spaces(s) - trailing_spaces(s)
    }
}

/// A byte string satisfies a `(min_len, max_len)` bound when its trimmed
/// length is at least `min_len` and its untrimmed length at most `max_len`.
pub open spec fn spec_bytes_param_ok(s: Seq<u8>, min_len: int, max_len: int) -> bool {
    spec_trimmed_len(s) >= min_len && s.len() <= max_len
}

proof fn lemma_leading_spaces_props(s: Seq<u8>)
    ensures
        0 <= leading_spaces(s) <= s.len(),
        forall|k: int| 0 <= k < leading_spaces(s) ==> is_space(s[k]),
        leading_spaces(s) < s.len() ==> !is_space(s[leading_spaces(s)]),
    decreases s.len(),
{
    if s.len() > 0 && is_space(s[0]) {
        lemma_leading_spaces_props(s.drop_first());
        assert forall|k: int| 0 <= k < leading_spaces(s) implies is_space(s[k]) by {
            if k > 0 {
                assert(is_space(s.drop_first()[k - 1]));
            }
        }
    }
}

proof fn lemma_trailing_spaces_props(s: Seq<u8>)
    ensures
        0 <= trailing_spaces(s) <= s.len(),
        forall|k: int| s.len() - trailing_spaces(s) <= k < s.len() ==> is_space(s[k]),
        trailing_spaces(s) < s.len() ==> !is_space(s[s.len() - trailing_spaces(s) - 1]),
    decreases s.len(),
{
    if s.len() > 0 && is_space(s[s.len() - 1]) {
        lemma_trailing_spaces_props(s.drop_last());
        assert forall|k: int| s.len() - trailing_spaces(s) <= k < s.len() implies is_space(
            s[k],
        ) by {
            if k < s.len() - 1 {
                assert(is_space(s.drop_last()[k]));
            }
        }
    }
}

proof fn lemma_leading_spaces_at(s: Seq<u8>, i: int)
    requires
        0 <= i <= s.len(),
        forall|k: int| 0 <= k < i ==> is_space(s[k]),
        i < s.len() ==> !is_space(s[i]),
    ensures
        leading_spaces(s) == i,
    decreases i,
{
    if i == 0 {
    } else {
        assert(is_space(s[0]));
        let t = s.drop_first();
        assert forall|k: int| 0 <= k < i - 1 implies is_space(t[k]) by {
            assert(is_space(s[k + 1]));
        }
        lemma_leading_spaces_at(t, i - 1);
    }
}

proof fn lemma_trailing_spaces_at(s: Seq<u8>, c: int)
    requires
        0 <= c <= s.len(),
        forall|k: int| s.len() - c <= k < s.len() ==> is_space(s[k]),
        c < s.len() ==> !is_space(s[s.len() - c - 1]),
    ensures
        trailing_spaces(s) == c,
    decreases c,
{
    if c == 0 {
    } else {
        assert(is_space(s[s.len() - 1]));
        let t = s.drop_last();
        assert forall|k: int| t.len() - (c - 1) <= k < t.len() implies is_space(t[k]) by {
            assert(is_space(s[k]));
        }
        lemma_trailing_spaces_at(t, c - 1);
    }
}

/// Whether a byte is ASCII whitespace.
pub fn is_space_byte(b: u8) -> (r: bool)
    ensures
        r == is_space(b),
{
    b == 32 || (9 <= b && b <= 13)
}

/// The index of the first non-whitespace byte of `s`, or `s.len()` if every
/// byte is whitespace.
fn first_non_space(s: &Vec<u8>) -> (r: usize)
    ensures
        r == leading_spaces(s@),
{
    let n = s.len();
    let mut i: usize = 0;
    while i < n
        invariant
            0 <= i <= n,
            n == s@.len(),
            forall|k: int| 0 <= k < i ==> is_space(s@[k]),
        decreases n - i,
    {
        if !is_space_byte(s[i]) {
            proof {
                lemma_leading_spaces_at(s@, i as int);
            }
            return i;
        }
        i += 1;
    }
    proof {
        lemma_leading_spaces_at(s@, i as int);
    }
    i
}

/// How many whitespace bytes `s` ends with.
fn trailing_space_count(s: &Vec<u8>) -> (r: usize)
    ensures
        r == trailing_spaces(s@),
{
    let n = s.len();
    let mut j: usize = n;
    while j > 0
        invariant
            0 <= j <= n,
            n == s@.len(),
            forall|k: int| j <= k < n ==> is_space(s@[k]),
        decreases j,
    {
        if !is_space_byte(s[j - 1]) {
            proof {
                lemma_trailing_spaces_at(s@, (n - j) as int);
            }
            return n - j;
        }
        j -= 1;
    }
    proof {
        lemma_trailing_spaces_at(s@, n as int);
    }
    n
}

/// The length of `s` once ASCII whitespace is trimmed from both ends.
pub fn trimmed_len(s: &Vec<u8>) -> (r: usize)
    ensures
        r == spec_trimmed_len(s@),
{
    let lead = first_non_space(s);
    if lead == s.len() {
        0
    } else {
        let trail = trailing_space_count(s);
        proof {
            lemma_leading_spaces_props(s@);
            lemma_trailing_spaces_props(s@);
            if trailing_spaces(s@) > s@.len() - leading_spaces(s@) - 1 {
                assert(is_space(s@[leading_spaces(s@)]));
            }
        }
        s.len() - lead - trail
    }
}

/// Whether `s` has a trimmed length of at least `min_len` and an untrimmed
/// length of at most `max_len`: the shape of every string-field check.
pub fn check_bytes_param(s: &Vec<u8>, min_len: usize, max_len: usize) -> (r: bool)
    ensures
        r == spec_bytes_param_ok(s@, min_len as int, max_len as int),
{
    let t = trimmed_len(s);
    t >= min_len && s.len() <= max_len
}

/// A byte-for-byte copy of `v`.
pub fn clone_bytes(v: &Vec<u8>) -> (r: Vec<u8>)
    ensures
        r@ == v@,
{
    let mut r: Vec<u8> = Vec::new();
    let mut i: usize = 0;
    while i < v.len()
        invariant
            0 <= i <= v@.len(),
            r@ == v@.take(i as int),
        decreases v@.len() - i,
    {
        r.push(v[i]);
        proof {
            assert(r@ =~= v@.take(i + 1 as int));
        }
        i += 1;
    }
    proof {
        assert(v@.take(v@.len() as int) =~= v@);
    }
    r
}

} // verus!
