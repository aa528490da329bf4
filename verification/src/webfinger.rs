//! Parsing of webfinger `resource` queries of the shape
//! `acct:username@domain`, and the validation that decides whether such a
//! query can be answered by this instance.

use vstd::prelude::*;

verus! {

/// The parsed form of a webfinger `resource` query.
#[derive(Debug, Clone, PartialEq, Eq)]
pub struct WebfingerQuery {
    pub has_prefix: bool,
    pub preferred_username: Option<String>,
    pub domain: Option<String>,
}

/// True when `s` starts with the literal `acct:`.
pub open spec fn spec_has_acct_prefix(s: Seq<char>) -> bool {
    s.len() >= 5 && s[0] == 'a' && s[1] == 'c' && s[2] == 'c' && s[3] == 't' && s[4] == ':'
}

/// Index of the first `@` in `s`, or `s.len()` when there is none.
pub open spec fn spec_first_at(s: Seq<char>) -> int
    decreases s.len(),
{
    if s.len() == 0 {
        0
    } else if s[0] == '@' {
        0
    } else {
        1 + spec_first_at(s.drop_first())
    }
}

pub proof fn lemma_first_at_bounds(s: Seq<char>)
    ensures
        0 <= spec_first_at(s) <= s.len(),
        forall|i: int| 0 <= i < spec_first_at(s) ==> s[i] != '@',
        spec_first_at(s) < s.len() ==> s[spec_first_at(s)] == '@',
    decreases s.len(),
{
    if s.len() == 0 {
    } else if s[0] == '@' {
    } else {
        lemma_first_at_bounds(s.drop_first());
        assert forall|i: int| 0 <= i < spec_first_at(s) implies s[i] != '@' by {
            if i > 0 {
                assert(s.drop_first()[i - 1] == s[i]);
            }
        }
        if spec_first_at(s) < s.len() {
            assert(s.drop_first()[spec_first_at(s) - 1] == s[spec_first_at(s)]);
        }
    }
}

/// The query text with any `acct:` prefix removed.
pub open spec fn spec_resource_of(s: Seq<char>) -> Seq<char> {
    if spec_has_acct_prefix(s) {
        s.skip(5)
    } else {
        s
    }
}

/// The username part: everything before the first `@` of the resource.
pub open spec fn spec_username_of(s: Seq<char>) -> Seq<char> {
    let r = spec_resource_of(s);
    r.take(spec_first_at(r))
}

/// The domain part: the segment between the first `@` of the resource and
/// the following `@` or the end; absent when the resource holds no `@`.
pub open spec fn spec_domain_of(s: Seq<char>) -> Option<Seq<char>> {
    let r = spec_resource_of(s);
    if spec_first_at(r) == r.len() {
        None
    } else {
        let rest = r.skip(spec_first_at(r) + 1);
        Some(rest.take(spec_first_at(rest)))
    }
}

impl WebfingerQuery {
    /// Splits a `resource` query into its `acct:` prefix, username and
    /// domain. The username is always present (possibly empty); the domain
    /// only when the resource contains an `@`.
    pub fn parse_query(input: String) -> (r: WebfingerQuery)
        ensures
            r.has_prefix == spec_has_acct_prefix(input@),
            r.preferred_username matches Some(u) && u@ == spec_username_of(input@),
            r.domain matches Some(d) ==> spec_domain_of(input@) matches Some(dd) && d@ == dd,
            r.domain is None <==> spec_domain_of(input@) is None,
    {
        let s = input.as_str();
        let n = s.unicode_len();
        let has_prefix = starts_with_acct(s);
        let start: usize = if has_prefix { 5 } else { 0 };
        assert(s@.skip(start as int) == spec_resource_of(input@));
        let i = find_at(s, start);
        let username = s.substring_char(start, i).to_owned();
        proof {
            assert(s@.subrange(start as int, i as int)
                =~= spec_resource_of(input@).take(spec_first_at(spec_resource_of(input@))));
        }
        if i == n {
            WebfingerQuery {
                has_prefix,
                preferred_username: Some(username),
                domain: None,
            }
        } else {
            let j = find_at(s, i + 1);
            let domain = s.substring_char(i + 1, j).to_owned();
            proof {
                let r = spec_resource_of(input@);
                let rest = r.skip(spec_first_at(r) + 1);
                assert(s@.skip(i + 1) =~= rest);
                assert(s@.subrange(i + 1, j as int) =~= rest.take(spec_first_at(rest)));
            }
            WebfingerQuery {
                has_prefix,
                preferred_username: Some(username),
                domain: Some(domain),
            }
        }
    }
}

/// True when `s` starts with `acct:`, checked character by character.
fn starts_with_acct(s: &str) -> (r: bool)
    ensures
        r == spec_has_acct_prefix(s@),
{
    let n = s.unicode_len();
    if n < 5 {
        return false;
    }
    s.get_char(0) == 'a' && s.get_char(1) == 'c' && s.get_char(2) == 'c' && s.get_char(3) == 't'
        && s.get_char(4) == ':'
}

/// Index of the first `@` at or after `from`, or the length of `s`.
fn find_at(s: &str, from: usize) -> (r: usize)
    requires
        from <= s@.len(),
    ensures
        from <= r <= s@.len(),
        r - from == spec_first_at(s@.skip(from as int)),
{
    let n = s.unicode_len();
    let mut i = from;
    while i < n
        invariant
            from <= i <= n,
            n == s@.len(),
            forall|k: int| from <= k < i ==> s@[k] != '@',
        decreases n - i,
    {
        if s.get_char(i) == '@' {
            proof {
                lemma_skip_first_at(s@, from as int, i as int);
            }
            return i;
        }
        i += 1;
    }
    proof {
        lemma_skip_first_at_none(s@, from as int);
    }
    n
}

/// When every character in `from..i` differs from `@` and `s[i] == '@'`,
/// the first `@` of `s.skip(from)` stands at `i - from`.
proof fn lemma_skip_first_at(s: Seq<char>, from: int, i: int)
    requires
        0 <= from <= i < s.len(),
        forall|k: int| from <= k < i ==> s[k] != '@',
        s[i] == '@',
    ensures
        spec_first_at(s.skip(from)) == i - from,
    decreases i - from,
{
    let t = s.skip(from);
    if i == from {
        assert(t[0] == '@');
    } else {
        assert(t[0] == s[from]);
        assert(t.drop_first() =~= s.skip(from + 1));
        lemma_skip_first_at(s, from + 1, i);
    }
}

/// When no character at or after `from` is `@`, the first `@` of
/// `s.skip(from)` is its length.
proof fn lemma_skip_first_at_none(s: Seq<char>, from: int)
    requires
        0 <= from <= s.len(),
        forall|k: int| from <= k < s.len() ==> s[k] != '@',
    ensures
        spec_first_at(s.skip(from)) == s.len() - from,
    decreases s.len() - from,
{
    let t = s.skip(from);
    if t.len() == 0 {
    } else {
        assert(t[0] == s[from]);
        assert(t.drop_first() =~= s.skip(from + 1));
        lemma_skip_first_at_none(s, from + 1);
    }
}

} // verus!
