use vstd::prelude::*;
use vstd::string::StrSliceExecFns;

verus! {

/// The characters stripped from both ends of a unit token: the Unicode
/// White_Space set (the same set `str::trim` strips), written out as a
/// closed list of code points — the ASCII blanks and separators, next line,
/// no-break space, ogham space mark, the en/em-quad family, line and
/// paragraph separators, narrow no-break space, medium mathematical space,
/// and ideographic space.
pub open spec fn is_space(c: char) -> bool {
    let v = c as u32;
    ||| 0x09 <= v <= 0x0D
    ||| v == 0x20
    ||| v == 0x85
    ||| v == 0xA0
    ||| v == 0x1680
    ||| 0x2000 <= v <= 0x200A
    ||| v == 0x2028
    ||| v == 0x2029
    ||| v == 0x202F
    ||| v == 0x205F
    ||| v == 0x3000
}

/// Number of blank characters at the front of `s`.
pub open spec fn leading_spaces(s: Seq<char>) -> nat
    decreases s.len(),
{
    if s.len() == 0 || !is_space(s[0]) {
        0
    } else {
        1 + leading_spaces(s.drop_first())
    }
}

/// Number of blank characters at the back of `s`.
pub open spec fn trailing_spaces(s: Seq<char>) -> nat
    decreases s.len(),
{
    if s.len() == 0 || !is_space(s[s.len() - 1]) {
        0
    } else {
        1 + trailing_spaces(s.drop_last())
    }
}

/// `s` with its leading and trailing blanks removed.
pub open spec fn trim_spec(s: Seq<char>) -> Seq<char> {
    if leading_spaces(s) == s.len() {
        Seq::empty()
    } else {
        s.subrange(leading_spaces(s) as int, s.len() - trailing_spaces(s))
    }
}

pub proof fn lemma_leading_spaces_unique(s: Seq<char>, k: nat)
    requires
        k <= s.len(),
        forall|j: int| 0 <= j < k ==> is_space(s[j]),
        k < s.len() ==> !is_space(s[k as int]),
    ensures
        leading_spaces(s) == k,
    decreases s.len(),
{
    if s.len() == 0 {
    } else if k == 0 {
    } else {
        assert(is_space(s[0]));
        assert forall|j: int| 0 <= j < k - 1 implies is_space(s.drop_first()[j]) by {
            assert(s.drop_first()[j] == s[j + 1]);
        }
        if k < s.len() {
            assert(s.drop_first()[k - 1] == s[k as int]);
        }
        lemma_leading_spaces_unique(s.drop_first(), (k - 1) as nat);
    }
}

pub proof fn lemma_trailing_spaces_unique(s: Seq<char>, k: nat)
    requires
        k <= s.len(),
        forall|j: int| s.len() - k <= j < s.len() ==> is_space(s[j]),
        k < s.len() ==> !is_space(s[s.len() - k - 1]),
    ensures
        trailing_spaces(s) == k,
    decreases s.len(),
{
    if s.len() == 0 {
    } else if k == 0 {
    } else {
        assert(is_space(s[s.len() - 1]));
        assert forall|j: int| s.drop_last().len() - (k - 1) <= j < s.drop_last().len()
            implies is_space(s.drop_last()[j]) by {
            assert(s.drop_last()[j] == s[j]);
        }
        if k < s.len() {
            assert(s.drop_last()[s.len() - k - 1] == s[s.len() - k - 1]);
        }
        lemma_trailing_spaces_unique(s.drop_last(), (k - 1) as nat);
    }
}

/// Find the bounds of the trimmed middle of `s`: the trimmed token is
/// exactly `s@.subrange(lo, hi)`.
pub fn trim_bounds(s: &str) -> (r: (usize, usize))
    ensures
        r.0 <= r.1 <= s@.len(),
        trim_spec(s@) == s@.subrange(r.0 as int, r.1 as int),
{
    let n = s.unicode_len();
    let mut lo: usize = 0;
    while lo < n && is_space_char(s.get_char(lo))
        invariant
            lo <= n,
            n == s@.len(),
            forall|j: int| 0 <= j < lo ==> is_space(s@[j]),
        decreases n - lo,
    {
        lo += 1;
    }
    proof {
        lemma_leading_spaces_unique(s@, lo as nat);
    }
    if lo == n {
        proof {
            assert(trim_spec(s@) =~= s@.subrange(lo as int, lo as int));
        }
        return (lo, lo);
    }
    let mut hi: usize = n;
    while hi > lo && is_space_char(s.get_char(hi - 1))
        invariant
            lo <= hi <= n,
            n == s@.len(),
            forall|j: int| hi <= j < n ==> is_space(s@[j]),
        decreases hi,
    {
        hi -= 1;
    }
    proof {
        assert(!is_space(s@[lo as int]));
        if hi == lo {
            assert(is_space(s@[lo as int]));
        }
        assert(hi > lo);
        lemma_trailing_spaces_unique(s@, (n - hi) as nat);
    }
    (lo, hi)
}

/// Exec test of `is_space`.
pub fn is_space_char(c: char) -> (r: bool)
    ensures
        r == is_space(c),
{
    let v = c as u32;
    (0x09 <= v && v <= 0x0D) || v == 0x20 || v == 0x85 || v == 0xA0 || v == 0x1680 || (0x2000 <= v
        && v <= 0x200A) || v == 0x2028 || v == 0x2029 || v == 0x202F || v == 0x205F || v == 0x3000
}

/// The code point of `c` folded to lower case, agreeing with
/// `str::to_lowercase` on every character whose lower case can reach a unit
/// alias: an ASCII capital letter folds to its small form, and the Kelvin
/// sign (U+212A) folds to `k`. Every other character keeps its code: its
/// lower case is itself, is not ASCII, or is longer than one character, so
/// it can never equal a letter of an alias either way.
pub open spec fn lower_code(c: char) -> int {
    if 65 <= c as u32 && c as u32 <= 90 {
        c as u32 + 32
    } else if c as u32 == 0x212A {
        107
    } else {
        c as u32 as int
    }
}

/// Exec counterpart of `lower_code`.
pub fn lower_code_x(c: char) -> (r: u32)
    ensures
        r == lower_code(c),
{
    let v = c as u32;
    if 65 <= v && v <= 90 {
        v + 32
    } else if v == 0x212A {
        107
    } else {
        v
    }
}

/// Case-insensitive equality of two character sequences, comparing each
/// character by its folded code point.
pub open spec fn ci_eq(a: Seq<char>, b: Seq<char>) -> bool {
    a.len() == b.len() && forall|i: int| 0 <= i < a.len() ==> lower_code(a[i]) == lower_code(b[i])
}

/// Does `s@.subrange(lo, hi)` match `pat`, ignoring letter case?
pub fn ci_match(s: &str, lo: usize, hi: usize, pat: &str) -> (r: bool)
    requires
        lo <= hi <= s@.len(),
    ensures
        r == ci_eq(s@.subrange(lo as int, hi as int), pat@),
{
    let n = pat.unicode_len();
    if hi - lo != n {
        return false;
    }
    let mut i: usize = 0;
    while i < n
        invariant
            i <= n,
            n == pat@.len(),
            lo <= hi <= s@.len(),
            hi - lo == n,
            forall|j: int| 0 <= j < i ==> lower_code(s@[lo + j]) == lower_code(pat@[j]),
        decreases n - i,
    {
        let a = s.get_char(lo + i);
        let b = pat.get_char(i);
        if lower_code_x(a) != lower_code_x(b) {
            proof {
                assert(s@.subrange(lo as int, hi as int)[i as int] == s@[lo + i]);
            }
            return false;
        }
        i += 1;
    }
    proof {
        assert forall|j: int| 0 <= j < n
            implies lower_code(s@.subrange(lo as int, hi as int)[j]) == lower_code(pat@[j]) by {
            assert(s@.subrange(lo as int, hi as int)[j] == s@[lo + j]);
        }
    }
    true
}

} // verus!
