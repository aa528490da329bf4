//! Small string helpers shared by the codec and signing modules.

use vstd::prelude::*;

verus! {

/// Character-by-character equality of two string slices.
pub fn str_eq(a: &str, b: &str) -> (r: bool)
    ensures
        r == (a@ == b@),
{
    let na = a.unicode_len();
    let nb = b.unicode_len();
    if na != nb {
        return false;
    }
    let mut i: usize = 0;
    while i < na
        invariant
            0 <= i <= na,
            na == a@.len() && na == b@.len(),
            forall|k: int| 0 <= k < i ==> a@[k] == b@[k],
        decreases na - i,
    {
        if a.get_char(i) != b.get_char(i) {
            return false;
        }
        i += 1;
    }
    proof {
        assert(a@ =~= b@);
    }
    true
}

/// A character folded to ASCII lower case, as a code point.
pub open spec fn spec_ascii_lower(c: char) -> int {
    if 'A' <= c && c <= 'Z' {
        c as u32 + 32
    } else {
        c as u32 as int
    }
}

/// Equality up to ASCII case.
pub open spec fn spec_ascii_eq(a: Seq<char>, b: Seq<char>) -> bool {
    a.len() == b.len() && (forall|i: int|
        0 <= i < a.len() ==> spec_ascii_lower(a[i]) == spec_ascii_lower(b[i]))
}

/// Character-by-character equality up to ASCII case.
pub fn str_eq_ignore_ascii_case(a: &str, b: &str) -> (r: bool)
    ensures
        r == spec_ascii_eq(a@, b@),
{
    let na = a.unicode_len();
    let nb = b.unicode_len();
    if na != nb {
        return false;
    }
    let mut i: usize = 0;
    while i < na
        invariant
            0 <= i <= na,
            na == a@.len() && na == b@.len(),
            forall|k: int| 0 <= k < i ==> spec_ascii_lower(a@[k]) == spec_ascii_lower(b@[k]),
        decreases na - i,
    {
        let ca = a.get_char(i);
        let cb = b.get_char(i);
        let la: u32 = if ca >= 'A' && ca <= 'Z' {
            ca as u32 + 32
        } else {
            ca as u32
        };
        let lb: u32 = if cb >= 'A' && cb <= 'Z' {
            cb as u32 + 32
        } else {
            cb as u32
        };
        if la != lb {
            return false;
        }
        i += 1;
    }
    true
}

/// Index of the first `c` in `s`, or `s.len()` when there is none.
pub open spec fn spec_find(s: Seq<char>, c: char) -> int
    decreases s.len(),
{
    if s.len() == 0 {
        0
    } else if s[0] == c {
        0
    } else {
        1 + spec_find(s.drop_first(), c)
    }
}

pub proof fn lemma_find_bounds(s: Seq<char>, c: char)
    ensures
        0 <= spec_find(s, c) <= s.len(),
        forall|i: int| 0 <= i < spec_find(s, c) ==> s[i] != c,
        spec_find(s, c) < s.len() ==> s[spec_find(s, c)] == c,
    decreases s.len(),
{
    if s.len() == 0 {
    } else if s[0] == c {
    } else {
        lemma_find_bounds(s.drop_first(), c);
        assert forall|i: int| 0 <= i < spec_find(s, c) implies s[i] != c by {
            if i > 0 {
                assert(s.drop_first()[i - 1] == s[i]);
            }
        }
        if spec_find(s, c) < s.len() {
            assert(s.drop_first()[spec_find(s, c) - 1] == s[spec_find(s, c)]);
        }
    }
}

/// When the characters before `i` differ from `c` and `s[i] == c`, the
/// first `c` stands at `i`.
pub proof fn lemma_find_at_index(s: Seq<char>, i: int, c: char)
    requires
        0 <= i < s.len(),
        forall|k: int| 0 <= k < i ==> s[k] != c,
        s[i] == c,
    ensures
        spec_find(s, c) == i,
    decreases i,
{
    if i == 0 {
    } else {
        assert forall|k: int| 0 <= k < i - 1 implies s.drop_first()[k] != c by {
            assert(s.drop_first()[k] == s[k + 1]);
        }
        assert(s.drop_first()[i - 1] == s[i]);
        lemma_find_at_index(s.drop_first(), i - 1, c);
    }
}

/// When no character is `c`, the first `c` is the length.
pub proof fn lemma_find_none(s: Seq<char>, c: char)
    requires
        forall|k: int| 0 <= k < s.len() ==> s[k] != c,
    ensures
        spec_find(s, c) == s.len(),
    decreases s.len(),
{
    if s.len() == 0 {
    } else {
        assert forall|k: int| 0 <= k < s.drop_first().len() implies s.drop_first()[k] != c by {
            assert(s.drop_first()[k] == s[k + 1]);
        }
        lemma_find_none(s.drop_first(), c);
    }
}

/// When every character in `from..i` differs from `c` and `s[i] == c`,
/// the first `c` of `s.skip(from)` stands at `i - from`.
proof fn lemma_skip_find(s: Seq<char>, from: int, i: int, c: char)
    requires
        0 <= from <= i < s.len(),
        forall|k: int| from <= k < i ==> s[k] != c,
        s[i] == c,
    ensures
        spec_find(s.skip(from), c) == i - from,
    decreases i - from,
{
    let t = s.skip(from);
    if i == from {
        assert(t[0] == c);
    } else {
        assert(t[0] == s[from]);
        assert(t.drop_first() =~= s.skip(from + 1));
        lemma_skip_find(s, from + 1, i, c);
    }
}

/// When no character at or after `from` is `c`, the first `c` of
/// `s.skip(from)` is its length.
proof fn lemma_skip_find_none(s: Seq<char>, from: int, c: char)
    requires
        0 <= from <= s.len(),
        forall|k: int| from <= k < s.len() ==> s[k] != c,
    ensures
        spec_find(s.skip(from), c) == s.len() - from,
    decreases s.len() - from,
{
    let t = s.skip(from);
    if t.len() == 0 {
    } else {
        assert(t[0] == s[from]);
        assert(t.drop_first() =~= s.skip(from + 1));
        lemma_skip_find_none(s, from + 1, c);
    }
}

/// Index of the first `c` at or after `from`, or the length of `v`.
pub fn find_char(v: &Vec<char>, from: usize, c: char) -> (r: usize)
    requires
        from <= v@.len(),
    ensures
        from <= r <= v@.len(),
        r - from == spec_find(v@.skip(from as int), c),
{
    let n = v.len();
    let mut i = from;
    while i < n
        invariant
            from <= i <= n,
            n == v@.len(),
            forall|k: int| from <= k < i ==> v@[k] != c,
        decreases n - i,
    {
        if v[i] == c {
            proof {
                lemma_skip_find(v@, from as int, i as int, c);
            }
            return i;
        }
        i += 1;
    }
    proof {
        lemma_skip_find_none(v@, from as int, c);
    }
    n
}

/// Relies on `String::push`: appends one character to the string.
#[verifier::external_body]
pub(crate) fn push_char(s: &mut String, c: char)
    ensures
        final(s)@ == old(s)@.push(c),
{
    s.push(c);
}

/// The characters of `s`, collected one by one.
pub fn chars_of(s: &str) -> (r: Vec<char>)
    ensures
        r@ == s@,
{
    let n = s.unicode_len();
    let mut out: Vec<char> = Vec::new();
    let mut i: usize = 0;
    while i < n
        invariant
            0 <= i <= n,
            n == s@.len(),
            out@ == s@.take(i as int),
        decreases n - i,
    {
        out.push(s.get_char(i));
        proof {
            assert(s@.take(i + 1) =~= s@.take(i as int).push(s@[i as int]));
        }
        i += 1;
    }
    proof {
        assert(s@.take(n as int) =~= s@);
    }
    out
}

/// Relies on `char::from_u32`: the character with this code point, present
/// exactly for Unicode scalar values (outside the surrogate range and at
/// most U+10FFFF).
#[verifier::external_body]
pub(crate) fn u32_to_char(x: u32) -> (r: Option<char>)
    ensures
        r is Some <==> (x < 0xD800 || (0xE000 <= x && x <= 0x10FFFF)),
        r matches Some(c) ==> c as u32 == x,
{
    char::from_u32(x)
}


} // verus!
