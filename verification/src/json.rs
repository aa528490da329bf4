//! A minimal JSON value model: the wire documents are objects built from
//! null, booleans, unsigned integers, strings, arrays and objects. The
//! printer emits compact JSON (no added whitespace) and the parser accepts
//! ordinary JSON text with whitespace between tokens.

use vstd::prelude::*;
use crate::util::push_char;

verus! {

/// A JSON value. Numbers are unsigned integers: the vocabulary carries
/// counts and dimensions only, never fractions or negative numbers.
#[derive(Debug)]
pub enum Json {
    Null,
    Bool(bool),
    Int(u64),
    Str(String),
    Arr(Vec<Json>),
    Obj(Vec<(String, Json)>),
}

/// The mathematical value of a [`Json`] tree.
pub enum JsonV {
    Null,
    Bool(bool),
    Int(u64),
    Str(Seq<char>),
    Arr(Seq<JsonV>),
    Obj(Seq<(Seq<char>, JsonV)>),
}

impl View for Json {
    type V = JsonV;

    open spec fn view(&self) -> JsonV
        decreases self,
    {
        match self {
            Json::Null => JsonV::Null,
            Json::Bool(b) => JsonV::Bool(*b),
            Json::Int(n) => JsonV::Int(*n),
            Json::Str(s) => JsonV::Str(s@),
            Json::Arr(items) => JsonV::Arr(view_items(items@)),
            Json::Obj(members) => JsonV::Obj(view_members(members@)),
        }
    }
}

/// The views of a sequence of JSON values.
pub open spec fn view_items(items: Seq<Json>) -> Seq<JsonV>
    decreases items,
{
    if items.len() == 0 {
        Seq::empty()
    } else {
        seq![items[0]@] + view_items(items.drop_first())
    }
}

/// The views of a sequence of object members.
pub open spec fn view_members(members: Seq<(String, Json)>) -> Seq<(Seq<char>, JsonV)>
    decreases members,
{
    if members.len() == 0 {
        Seq::empty()
    } else {
        seq![(members[0].0@, members[0].1@)] + view_members(members.drop_first())
    }
}

/// The first member of `members` named `key`, if any.
pub open spec fn spec_obj_get(members: Seq<(Seq<char>, JsonV)>, key: Seq<char>) -> Option<JsonV>
    decreases members.len(),
{
    if members.len() == 0 {
        None
    } else if members[0].0 == key {
        Some(members[0].1)
    } else {
        spec_obj_get(members.drop_first(), key)
    }
}

/// The decimal digit characters of `n`, most significant first.
pub open spec fn spec_digits(n: u64) -> Seq<char>
    decreases n,
{
    if n < 10 {
        seq![spec_digit_char(n as int)]
    } else {
        spec_digits(n / 10) + seq![spec_digit_char((n % 10) as int)]
    }
}

/// The character for one decimal digit.
pub open spec fn spec_digit_char(d: int) -> char {
    if d == 0 { '0' }
    else if d == 1 { '1' }
    else if d == 2 { '2' }
    else if d == 3 { '3' }
    else if d == 4 { '4' }
    else if d == 5 { '5' }
    else if d == 6 { '6' }
    else if d == 7 { '7' }
    else if d == 8 { '8' }
    else { '9' }
}

/// The character for one hexadecimal digit.
pub open spec fn spec_hex_char(d: int) -> char {
    if d < 10 { spec_digit_char(d) }
    else if d == 10 { 'a' }
    else if d == 11 { 'b' }
    else if d == 12 { 'c' }
    else if d == 13 { 'd' }
    else if d == 14 { 'e' }
    else { 'f' }
}

/// The escape sequence the printer emits for one string character.
pub open spec fn spec_escape_char(c: char) -> Seq<char> {
    if c == '"' {
        seq!['\\', '"']
    } else if c == '\\' {
        seq!['\\', '\\']
    } else if c == '\n' {
        seq!['\\', 'n']
    } else if c == '\r' {
        seq!['\\', 'r']
    } else if c == '\t' {
        seq!['\\', 't']
    } else if (c as u32) < 32 {
        seq!['\\', 'u', '0', '0', spec_hex_char(c as u32 as int / 16), spec_hex_char(
            c as u32 as int % 16,
        )]
    } else {
        seq![c]
    }
}

/// The escaped body of a printed JSON string.
pub open spec fn spec_escape(s: Seq<char>) -> Seq<char>
    decreases s.len(),
{
    if s.len() == 0 {
        Seq::empty()
    } else {
        spec_escape_char(s[0]) + spec_escape(s.drop_first())
    }
}

/// The compact text of a JSON value.
pub open spec fn spec_print(v: JsonV) -> Seq<char>
    decreases v,
{
    match v {
        JsonV::Null => "null"@,
        JsonV::Bool(b) => if b { "true"@ } else { "false"@ },
        JsonV::Int(n) => spec_digits(n),
        JsonV::Str(s) => seq!['"'] + spec_escape(s) + seq!['"'],
        JsonV::Arr(items) => seq!['['] + spec_print_items(items) + seq![']'],
        JsonV::Obj(members) => seq!['{'] + spec_print_members(members) + seq!['}'],
    }
}

/// The comma-separated texts of an array's items.
pub open spec fn spec_print_items(items: Seq<JsonV>) -> Seq<char>
    decreases items,
{
    if items.len() == 0 {
        Seq::empty()
    } else if items.len() == 1 {
        spec_print(items[0])
    } else {
        spec_print(items[0]) + seq![','] + spec_print_items(items.drop_first())
    }
}

/// The comma-separated `"key":value` texts of an object's members.
pub open spec fn spec_print_members(members: Seq<(Seq<char>, JsonV)>) -> Seq<char>
    decreases members,
{
    if members.len() == 0 {
        Seq::empty()
    } else {
        let head = seq!['"'] + spec_escape(members[0].0) + seq!['"', ':'] + spec_print(
            members[0].1,
        );
        if members.len() == 1 {
            head
        } else {
            head + seq![','] + spec_print_members(members.drop_first())
        }
    }
}

// ------------------------------------------------------------- the parser

/// First index at or after `i` holding no JSON whitespace.
fn skip_ws(cs: &Vec<char>, i: usize) -> (r: usize)
    requires
        i <= cs@.len(),
    ensures
        i <= r <= cs@.len(),
{
    let n = cs.len();
    let mut j = i;
    while j < n
        invariant
            i <= j <= n,
            n == cs@.len(),
        decreases n - j,
    {
        let c = cs[j];
        if c == ' ' || c == '\t' || c == '\n' || c == '\r' {
            j += 1;
        } else {
            return j;
        }
    }
    n
}

/// True when the characters at `i` spell `t`, which is then consumed.
fn eat_word(cs: &Vec<char>, i: usize, t: &str) -> (r: Option<usize>)
    requires
        i <= cs@.len(),
    ensures
        r matches Some(j) ==> i <= j <= cs@.len(),
{
    let n = t.unicode_len();
    if n > cs.len() - i {
        return None;
    }
    let mut k: usize = 0;
    while k < n
        invariant
            0 <= k <= n,
            n == t@.len(),
            i + n <= cs@.len() <= usize::MAX,
        decreases n - k,
    {
        proof {
            assert(i + k < cs@.len());
        }
        if cs[i + k] != t.get_char(k) {
            return None;
        }
        k += 1;
    }
    Some(i + n)
}

/// Four hex digits at `i`, as a number.
fn parse_hex4(cs: &Vec<char>, i: usize) -> (r: Option<(u32, usize)>)
    requires
        i <= cs@.len(),
    ensures
        r matches Some(p) ==> i <= p.1 <= cs@.len() && p.0 < 0x10000,
{
    if cs.len() - i < 4 {
        return None;
    }
    let mut value: u32 = 0;
    let mut k: usize = 0;
    while k < 4
        invariant
            0 <= k <= 4,
            i + 4 <= cs@.len() <= usize::MAX,
            k == 0 ==> value == 0,
            k == 1 ==> value < 16,
            k == 2 ==> value < 256,
            k == 3 ==> value < 4096,
            k == 4 ==> value < 65536,
        decreases 4 - k,
    {
        proof {
            assert(i + k < cs@.len());
        }
        let c = cs[i + k];
        let d: u32 = if c >= '0' && c <= '9' {
            c as u32 - 48
        } else if c >= 'a' && c <= 'f' {
            c as u32 - 87
        } else if c >= 'A' && c <= 'F' {
            c as u32 - 55
        } else {
            return None;
        };
        proof {
            assert(d < 16);
        }
        value = value * 16 + d;
        k += 1;
    }
    Some((value, i + 4))
}

/// A string body starting after the opening quote; consumes the closing
/// quote. Accepts the JSON escapes, `\u` pairs included.
fn parse_string_body(cs: &Vec<char>, i: usize) -> (r: Option<(String, usize)>)
    requires
        i <= cs@.len(),
    ensures
        r matches Some(p) ==> i < p.1 <= cs@.len(),
{
    let n = cs.len();
    let mut out = String::new();
    let mut j = i;
    while j < n
        invariant
            i <= j <= n,
            n == cs@.len(),
        decreases n - j,
    {
        let c = cs[j];
        if c == '"' {
            return Some((out, j + 1));
        }
        if c == '\\' {
            if j + 1 >= n {
                return None;
            }
            let e = cs[j + 1];
            if e == '"' || e == '\\' || e == '/' {
                crate::util::push_char(&mut out, e);
                j += 2;
            } else if e == 'n' {
                crate::util::push_char(&mut out, '\n');
                j += 2;
            } else if e == 'r' {
                crate::util::push_char(&mut out, '\r');
                j += 2;
            } else if e == 't' {
                crate::util::push_char(&mut out, '\t');
                j += 2;
            } else if e == 'b' {
                crate::util::push_char(&mut out, '\u{0008}');
                j += 2;
            } else if e == 'f' {
                crate::util::push_char(&mut out, '\u{000C}');
                j += 2;
            } else if e == 'u' {
                let (hi, after_hi) = match parse_hex4(cs, j + 2) {
                    Some(p) => p,
                    None => {
                        return None;
                    },
                };
                if hi >= 0xD800 && hi <= 0xDBFF {
                    // a high surrogate must pair with a following \u escape
                    if n - after_hi < 2 || cs[after_hi] != '\\' || cs[after_hi + 1] != 'u' {
                        return None;
                    }
                    let (lo, after_lo) = match parse_hex4(cs, after_hi + 2) {
                        Some(p) => p,
                        None => {
                            return None;
                        },
                    };
                    if !(lo >= 0xDC00 && lo <= 0xDFFF) {
                        return None;
                    }
                    let code: u32 = 0x10000 + (hi - 0xD800) * 0x400 + (lo - 0xDC00);
                    match crate::util::u32_to_char(code) {
                        Some(ch) => {
                            crate::util::push_char(&mut out, ch);
                            j = after_lo;
                        },
                        None => {
                            return None;
                        },
                    }
                } else {
                    match crate::util::u32_to_char(hi) {
                        Some(ch) => {
                            crate::util::push_char(&mut out, ch);
                            j = after_hi;
                        },
                        None => {
                            return None;
                        },
                    }
                }
            } else {
                return None;
            }
        } else {
            crate::util::push_char(&mut out, c);
            j += 1;
        }
    }
    None
}

/// An unsigned decimal number at `i`. The vocabulary carries only counts
/// and dimensions, so fractions, exponents and signs are rejected.
fn parse_number(cs: &Vec<char>, i: usize) -> (r: Option<(u64, usize)>)
    requires
        i <= cs@.len(),
    ensures
        r matches Some(p) ==> i < p.1 <= cs@.len(),
{
    let n = cs.len();
    let mut j = i;
    let mut value: u64 = 0;
    let mut any = false;
    while j < n
        invariant
            i <= j <= n,
            n == cs@.len(),
            any ==> j > i,
        decreases n - j,
    {
        let c = cs[j];
        if c >= '0' && c <= '9' {
            let d: u64 = (c as u32 - 48) as u64;
            if value > (u64::MAX - d) / 10 {
                return None;
            }
            value = value * 10 + d;
            any = true;
            j += 1;
        } else {
            break ;
        }
    }
    if any {
        Some((value, j))
    } else {
        None
    }
}

/// One JSON value at `i` (no leading whitespace). Whitespace between the
/// tokens of composite values is accepted.
fn parse_value(cs: &Vec<char>, i: usize) -> (r: Option<(Json, usize)>)
    requires
        i <= cs@.len(),
    ensures
        r matches Some(p) ==> i < p.1 <= cs@.len(),
    decreases cs@.len() - i,
{
    let n = cs.len();
    if i >= n {
        return None;
    }
    let c = cs[i];
    if c == 'n' {
        match eat_word(cs, i, "null") {
            Some(j) => {
                if j > i {
                    Some((Json::Null, j))
                } else {
                    None
                }
            },
            None => None,
        }
    } else if c == 't' {
        match eat_word(cs, i, "true") {
            Some(j) => {
                if j > i {
                    Some((Json::Bool(true), j))
                } else {
                    None
                }
            },
            None => None,
        }
    } else if c == 'f' {
        match eat_word(cs, i, "false") {
            Some(j) => {
                if j > i {
                    Some((Json::Bool(false), j))
                } else {
                    None
                }
            },
            None => None,
        }
    } else if c == '"' {
        match parse_string_body(cs, i + 1) {
            Some((s, j)) => Some((Json::Str(s), j)),
            None => None,
        }
    } else if c >= '0' && c <= '9' {
        match parse_number(cs, i) {
            Some((v, j)) => Some((Json::Int(v), j)),
            None => None,
        }
    } else if c == '[' {
        let mut items: Vec<Json> = Vec::new();
        let mut cur = skip_ws(cs, i + 1);
        if cur < n && cs[cur] == ']' {
            return Some((Json::Arr(items), cur + 1));
        }
        while cur < n
            invariant
                i < cur <= n,
                n == cs@.len(),
            decreases n - cur,
        {
            let (item, after) = match parse_value(cs, cur) {
                Some(p) => p,
                None => {
                    return None;
                },
            };
            items.push(item);
            let next = skip_ws(cs, after);
            if next < n && cs[next] == ',' {
                cur = skip_ws(cs, next + 1);
                if cur <= next {
                    return None;
                }
            } else if next < n && cs[next] == ']' {
                return Some((Json::Arr(items), next + 1));
            } else {
                return None;
            }
        }
        None
    } else if c == '{' {
        let mut members: Vec<(String, Json)> = Vec::new();
        let mut cur = skip_ws(cs, i + 1);
        if cur < n && cs[cur] == '}' {
            return Some((Json::Obj(members), cur + 1));
        }
        while cur < n
            invariant
                i < cur <= n,
                n == cs@.len(),
            decreases n - cur,
        {
            if cs[cur] != '"' {
                return None;
            }
            let (key, after_key) = match parse_string_body(cs, cur + 1) {
                Some(p) => p,
                None => {
                    return None;
                },
            };
            let colon = skip_ws(cs, after_key);
            if !(colon < n && cs[colon] == ':') {
                return None;
            }
            let vstart = skip_ws(cs, colon + 1);
            let (value, after) = match parse_value(cs, vstart) {
                Some(p) => p,
                None => {
                    return None;
                },
            };
            members.push((key, value));
            let next = skip_ws(cs, after);
            if next < n && cs[next] == ',' {
                cur = skip_ws(cs, next + 1);
                if cur <= next {
                    return None;
                }
            } else if next < n && cs[next] == '}' {
                return Some((Json::Obj(members), next + 1));
            } else {
                return None;
            }
        }
        None
    } else {
        None
    }
}

impl Json {
    /// Parses one JSON text into a value: the whole text must be one value
    /// with only whitespace around it. Numbers are unsigned integers, the
    /// only kind the vocabulary carries.
    pub fn parse(text: &str) -> (r: Result<Json, crate::codec::DecodeError>)
        ensures
            r matches Err(e) ==> e == crate::codec::DecodeError::MalformedJson,
    {
        let cs = crate::util::chars_of(text);
        let start = skip_ws(&cs, 0);
        match parse_value(&cs, start) {
            Some((v, after)) => {
                let trail = skip_ws(&cs, after);
                if trail == cs.len() {
                    Ok(v)
                } else {
                    Err(crate::codec::DecodeError::MalformedJson)
                }
            },
            None => Err(crate::codec::DecodeError::MalformedJson),
        }
    }
}

pub proof fn lemma_view_items_props(items: Seq<Json>)
    ensures
        view_items(items).len() == items.len(),
        forall|i: int| 0 <= i < items.len() ==> view_items(items)[i] == items[i]@,
    decreases items,
{
    if items.len() > 0 {
        lemma_view_items_props(items.drop_first());
        assert(view_items(items) == seq![items[0]@] + view_items(items.drop_first()));
        assert forall|i: int| 0 <= i < items.len() implies view_items(items)[i] == items[i]@ by {
            if i > 0 {
                assert(view_items(items)[i] == view_items(items.drop_first())[i - 1]);
                assert(view_items(items.drop_first())[i - 1] == items.drop_first()[i - 1]@);
                assert(items.drop_first()[i - 1] == items[i]);
            }
        }
    }
}

pub proof fn lemma_view_members_props(members: Seq<(String, Json)>)
    ensures
        view_members(members).len() == members.len(),
        forall|i: int| 0 <= i < members.len() ==> view_members(members)[i] == (
        members[i].0@,
        members[i].1@,
        ),
    decreases members,
{
    if members.len() > 0 {
        lemma_view_members_props(members.drop_first());
        assert(view_members(members) == seq![(members[0].0@, members[0].1@)] + view_members(
            members.drop_first(),
        ));
        assert forall|i: int| 0 <= i < members.len() implies view_members(members)[i] == (
        members[i].0@,
        members[i].1@,
        ) by {
            if i > 0 {
                assert(view_members(members)[i] == view_members(members.drop_first())[i - 1]);
                assert(view_members(members.drop_first())[i - 1] == (
                members.drop_first()[i - 1].0@,
                members.drop_first()[i - 1].1@,
                ));
                assert(members.drop_first()[i - 1] == members[i]);
            }
        }
    }
}

/// One more element extends the sequence of views.
pub proof fn lemma_view_items_push(s: Seq<Json>, x: Json)
    ensures
        view_items(s.push(x)) == view_items(s) + seq![x@],
    decreases s.len(),
{
    if s.len() == 0 {
        assert(s.push(x)[0] == x);
        assert(s.push(x).drop_first() =~= Seq::<Json>::empty());
        assert(view_items(Seq::<Json>::empty()) == Seq::<JsonV>::empty());
        assert(view_items(s.push(x).drop_first()) == Seq::<JsonV>::empty());
        assert(view_items(s.push(x)) =~= view_items(s) + seq![x@]);
    } else {
        assert(s.push(x)[0] == s[0]);
        assert(s.push(x).drop_first() =~= s.drop_first().push(x));
        lemma_view_items_push(s.drop_first(), x);
        assert(view_items(s.push(x).drop_first()) == view_items(s.drop_first().push(x)));
        assert(view_items(s.push(x)) == seq![s[0]@] + (view_items(s.drop_first()) + seq![x@]));
        assert(view_items(s) == seq![s[0]@] + view_items(s.drop_first()));
        assert(view_items(s.push(x)) =~= view_items(s) + seq![x@]);
    }
}

/// One more member extends the sequence of member views.
pub proof fn lemma_view_members_push(s: Seq<(String, Json)>, x: (String, Json))
    ensures
        view_members(s.push(x)) == view_members(s) + seq![(x.0@, x.1@)],
    decreases s.len(),
{
    if s.len() == 0 {
        assert(s.push(x)[0] == x);
        assert(s.push(x).drop_first() =~= Seq::<(String, Json)>::empty());
        assert(view_members(Seq::<(String, Json)>::empty()) == Seq::<(Seq<char>, JsonV)>::empty());
        assert(view_members(s.push(x).drop_first()) == Seq::<(Seq<char>, JsonV)>::empty());
        assert(view_members(s.push(x)) =~= view_members(s) + seq![(x.0@, x.1@)]);
    } else {
        assert(s.push(x)[0] == s[0]);
        assert(s.push(x).drop_first() =~= s.drop_first().push(x));
        lemma_view_members_push(s.drop_first(), x);
        assert(view_members(s.push(x).drop_first()) == view_members(s.drop_first().push(x)));
        assert(view_members(s.push(x)) == seq![(s[0].0@, s[0].1@)] + (view_members(s.drop_first())
            + seq![(x.0@, x.1@)]));
        assert(view_members(s) == seq![(s[0].0@, s[0].1@)] + view_members(s.drop_first()));
        assert(view_members(s.push(x)) =~= view_members(s) + seq![(x.0@, x.1@)]);
    }
}

/// Key lookup in a concatenation: the left part wins when it has the key.
pub proof fn lemma_obj_get_concat(a: Seq<(Seq<char>, JsonV)>, b: Seq<(Seq<char>, JsonV)>)
    ensures
        forall|k: Seq<char>|
            #[trigger] spec_obj_get(a + b, k) == if spec_obj_get(a, k) is Some {
                spec_obj_get(a, k)
            } else {
                spec_obj_get(b, k)
            },
    decreases a.len(),
{
    if a.len() == 0 {
        assert(a + b =~= b);
    } else {
        lemma_obj_get_concat(a.drop_first(), b);
        assert forall|k: Seq<char>|
            #[trigger] spec_obj_get(a + b, k) == if spec_obj_get(a, k) is Some {
                spec_obj_get(a, k)
            } else {
                spec_obj_get(b, k)
            } by {
            assert((a + b)[0] == a[0]);
            assert((a + b).drop_first() =~= a.drop_first() + b);
            assert(spec_obj_get((a + b).drop_first(), k) == spec_obj_get(a.drop_first() + b, k));
            if a[0].0 != k {
                assert(spec_obj_get(a + b, k) == spec_obj_get((a + b).drop_first(), k));
                assert(spec_obj_get(a, k) == spec_obj_get(a.drop_first(), k));
            }
        }
    }
}

/// Key lookup in a one-member list.
pub proof fn lemma_obj_get_single(k1: Seq<char>, v: JsonV)
    ensures
        forall|k: Seq<char>|
            #[trigger] spec_obj_get(seq![(k1, v)], k) == if k == k1 {
                Some(v)
            } else {
                None::<JsonV>
            },
{
    assert forall|k: Seq<char>|
        #[trigger] spec_obj_get(seq![(k1, v)], k) == if k == k1 {
            Some(v)
        } else {
            None::<JsonV>
        } by {
        assert(seq![(k1, v)][0] == (k1, v));
        assert(seq![(k1, v)].drop_first() =~= Seq::<(Seq<char>, JsonV)>::empty());
        assert(spec_obj_get(Seq::<(Seq<char>, JsonV)>::empty(), k) is None);
        assert(spec_obj_get(seq![(k1, v)].drop_first(), k) is None);
    }
}

/// Key lookup in the empty list.
pub proof fn lemma_obj_get_empty()
    ensures
        forall|k: Seq<char>| #[trigger]
            spec_obj_get(Seq::<(Seq<char>, JsonV)>::empty(), k) == None::<JsonV>,
{
}

/// A value found by key lookup is structurally below the member list, so
/// recursion through a lookup terminates.
pub proof fn lemma_obj_get_decreases(ms: Seq<(Seq<char>, JsonV)>, k: Seq<char>)
    ensures
        match spec_obj_get(ms, k) {
            Some(v) => decreases_to!(ms => v),
            None => true,
        },
    decreases ms.len(),
{
    if ms.len() > 0 {
        if ms[0].0 == k {
            assert(decreases_to!(ms => ms[0]));
            assert(decreases_to!(ms[0] => ms[0].1));
        } else {
            lemma_obj_get_decreases(ms.drop_first(), k);
            if spec_obj_get(ms, k) is Some {
                assert(ms.drop_first() == ms.subrange(1, ms.len() as int));
                assert(decreases_to!(ms => ms.subrange(1, ms.len() as int)));
            }
        }
    }
}

/// Escaping one more character extends the escaped text.
proof fn lemma_escape_push(t: Seq<char>, c: char)
    ensures
        spec_escape(t.push(c)) == spec_escape(t) + spec_escape_char(c),
    decreases t.len(),
{
    if t.len() == 0 {
        assert(t.push(c)[0] == c);
        assert(t.push(c).drop_first() =~= Seq::<char>::empty());
        assert(spec_escape(Seq::<char>::empty()) == Seq::<char>::empty());
        assert(spec_escape(t.push(c)) =~= spec_escape_char(c));
        assert(spec_escape(t) + spec_escape_char(c) =~= spec_escape_char(c));
    } else {
        assert(t.push(c)[0] == t[0]);
        assert(t.push(c).drop_first() =~= t.drop_first().push(c));
        lemma_escape_push(t.drop_first(), c);
        assert(spec_escape(t.push(c)) =~= spec_escape(t) + spec_escape_char(c));
    }
}

/// One more array item extends the printed item list.
proof fn lemma_print_items_snoc(items: Seq<JsonV>, i: int)
    requires
        0 <= i < items.len(),
    ensures
        spec_print_items(items.take(i + 1)) == if i == 0 {
            spec_print(items[0])
        } else {
            spec_print_items(items.take(i)) + seq![','] + spec_print(items[i])
        },
    decreases i,
{
    if i == 0 {
        assert(items.take(1).len() == 1);
        assert(items.take(1)[0] == items[0]);
    } else {
        let t = items.drop_first();
        assert(items.take(i + 1)[0] == items[0]);
        assert(items.take(i + 1).drop_first() =~= t.take(i));
        assert(items.take(i).drop_first() =~= t.take(i - 1));
        assert(items.take(i)[0] == items[0]);
        lemma_print_items_snoc(t, i - 1);
        assert(t[i - 1] == items[i]);
        if i == 1 {
            assert(spec_print_items(items.take(2)) =~= spec_print_items(items.take(1)) + seq![',']
                + spec_print(items[1]));
        } else {
            assert(spec_print_items(items.take(i + 1)) =~= spec_print_items(items.take(i))
                + seq![','] + spec_print(items[i]));
        }
    }
}

/// One more object member extends the printed member list.
proof fn lemma_print_members_snoc(members: Seq<(Seq<char>, JsonV)>, i: int)
    requires
        0 <= i < members.len(),
    ensures
        spec_print_members(members.take(i + 1)) == if i == 0 {
            seq!['"'] + spec_escape(members[0].0) + seq!['"', ':'] + spec_print(members[0].1)
        } else {
            spec_print_members(members.take(i)) + seq![','] + (seq!['"'] + spec_escape(
                members[i].0,
            ) + seq!['"', ':'] + spec_print(members[i].1))
        },
    decreases i,
{
    if i == 0 {
        assert(members.take(1).len() == 1);
        assert(members.take(1)[0] == members[0]);
    } else {
        let t = members.drop_first();
        assert(members.take(i + 1)[0] == members[0]);
        assert(members.take(i + 1).drop_first() =~= t.take(i));
        assert(members.take(i).drop_first() =~= t.take(i - 1));
        assert(members.take(i)[0] == members[0]);
        lemma_print_members_snoc(t, i - 1);
        assert(t[i - 1] == members[i]);
        if i == 1 {
            assert(spec_print_members(members.take(2)) =~= spec_print_members(members.take(1))
                + seq![','] + (seq!['"'] + spec_escape(members[1].0) + seq!['"', ':'] + spec_print(
                members[1].1,
            )));
        } else {
            assert(spec_print_members(members.take(i + 1)) =~= spec_print_members(members.take(i))
                + seq![','] + (seq!['"'] + spec_escape(members[i].0) + seq!['"', ':'] + spec_print(
                members[i].1,
            )));
        }
    }
}

/// The character of one decimal digit.
fn digit_char(d: u64) -> (c: char)
    requires
        d < 10,
    ensures
        c == spec_digit_char(d as int),
{
    if d == 0 { '0' }
    else if d == 1 { '1' }
    else if d == 2 { '2' }
    else if d == 3 { '3' }
    else if d == 4 { '4' }
    else if d == 5 { '5' }
    else if d == 6 { '6' }
    else if d == 7 { '7' }
    else if d == 8 { '8' }
    else { '9' }
}

/// The character of one hexadecimal digit.
fn hex_char(d: u32) -> (c: char)
    requires
        d < 16,
    ensures
        c == spec_hex_char(d as int),
{
    if d < 10 {
        digit_char(d as u64)
    } else if d == 10 { 'a' }
    else if d == 11 { 'b' }
    else if d == 12 { 'c' }
    else if d == 13 { 'd' }
    else if d == 14 { 'e' }
    else { 'f' }
}

/// Writes the decimal digits of `n`.
fn write_int(n: u64, out: &mut String)
    ensures
        final(out)@ == old(out)@ + spec_digits(n),
    decreases n,
{
    if n >= 10 {
        write_int(n / 10, out);
    }
    push_char(out, digit_char(n % 10));
    proof {
        if n < 10 {
            assert(old(out)@ + spec_digits(n) =~= old(out)@.push(spec_digit_char(n as int)));
        } else {
            assert(old(out)@ + spec_digits(n) =~= (old(out)@ + spec_digits(n / 10)).push(
                spec_digit_char((n % 10) as int),
            ));
        }
    }
}

/// Writes the escaped body of a JSON string.
fn write_escaped(s: &str, out: &mut String)
    ensures
        final(out)@ == old(out)@ + spec_escape(s@),
{
    let n = s.unicode_len();
    let mut i: usize = 0;
    proof {
        assert(s@.take(0) =~= Seq::<char>::empty());
        assert(old(out)@ + spec_escape(s@.take(0)) =~= old(out)@);
    }
    while i < n
        invariant
            0 <= i <= n,
            n == s@.len(),
            out@ == old(out)@ + spec_escape(s@.take(i as int)),
        decreases n - i,
    {
        let c = s.get_char(i);
        proof {
            assert(s@.take(i + 1) =~= s@.take(i as int).push(s@[i as int]));
            lemma_escape_push(s@.take(i as int), s@[i as int]);
        }
        if c == '"' {
            push_char(out, '\\');
            push_char(out, '"');
        } else if c == '\\' {
            push_char(out, '\\');
            push_char(out, '\\');
        } else if c == '\n' {
            push_char(out, '\\');
            push_char(out, 'n');
        } else if c == '\r' {
            push_char(out, '\\');
            push_char(out, 'r');
        } else if c == '\t' {
            push_char(out, '\\');
            push_char(out, 't');
        } else if (c as u32) < 32 {
            push_char(out, '\\');
            push_char(out, 'u');
            push_char(out, '0');
            push_char(out, '0');
            push_char(out, hex_char((c as u32) / 16));
            push_char(out, hex_char((c as u32) % 16));
        } else {
            push_char(out, c);
        }
        proof {
            assert(out@ =~= old(out)@ + spec_escape(s@.take(i + 1)));
        }
        i += 1;
    }
    proof {
        assert(s@.take(n as int) =~= s@);
    }
}

/// Writes a string literal: quotes around the escaped body.
fn write_string(s: &str, out: &mut String)
    ensures
        final(out)@ == old(out)@ + seq!['"'] + spec_escape(s@) + seq!['"'],
{
    push_char(out, '"');
    write_escaped(s, out);
    push_char(out, '"');
    proof {
        assert(final(out)@ =~= old(out)@ + seq!['"'] + spec_escape(s@) + seq!['"']);
    }
}

impl Json {
    /// Appends the compact text of this value to `out`.
    pub fn write_to(&self, out: &mut String)
        ensures
            final(out)@ == old(out)@ + spec_print(self@),
        decreases self,
    {
        match self {
            Json::Null => {
                out.append("null");
            },
            Json::Bool(b) => {
                if *b {
                    out.append("true");
                } else {
                    out.append("false");
                }
            },
            Json::Int(n) => {
                write_int(*n, out);
            },
            Json::Str(s) => {
                write_string(s.as_str(), out);
                proof {
                    assert(final(out)@ =~= old(out)@ + spec_print(self@));
                }
            },
            Json::Arr(items) => {
                push_char(out, '[');
                let ghost vi = view_items(items@);
                proof {
                    lemma_view_items_props(items@);
                    assert(vi.take(0) =~= Seq::<JsonV>::empty());
                }
                let n = items.len();
                let mut i: usize = 0;
                while i < n
                    invariant
                        0 <= i <= n,
                        n == items@.len(),
                        *self == Json::Arr(*items),
                        vi == view_items(items@),
                        vi.len() == n,
                        forall|k: int| 0 <= k < n ==> vi[k] == items@[k]@,
                        out@ == old(out)@ + seq!['['] + spec_print_items(vi.take(i as int)),
                    decreases n - i,
                {
                    if i > 0 {
                        push_char(out, ',');
                    }
                    proof {
                        assert(decreases_to!(*self => self->Arr_0));
                        assert(decreases_to!(self->Arr_0 => self->Arr_0[i as int]));
                    }
                    let item = &items[i];
                    item.write_to(out);
                    proof {
                        lemma_print_items_snoc(vi, i as int);
                        assert(out@ =~= old(out)@ + seq!['['] + spec_print_items(vi.take(i + 1)));
                    }
                    i += 1;
                }
                push_char(out, ']');
                proof {
                    assert(vi.take(n as int) =~= vi);
                    assert(final(out)@ =~= old(out)@ + spec_print(self@));
                }
            },
            Json::Obj(members) => {
                push_char(out, '{');
                let ghost vm = view_members(members@);
                proof {
                    lemma_view_members_props(members@);
                    assert(vm.take(0) =~= Seq::<(Seq<char>, JsonV)>::empty());
                }
                let n = members.len();
                let mut i: usize = 0;
                while i < n
                    invariant
                        0 <= i <= n,
                        n == members@.len(),
                        *self == Json::Obj(*members),
                        vm == view_members(members@),
                        vm.len() == n,
                        forall|k: int| 0 <= k < n ==> vm[k] == (members@[k].0@, members@[k].1@),
                        out@ == old(out)@ + seq!['{'] + spec_print_members(vm.take(i as int)),
                    decreases n - i,
                {
                    if i > 0 {
                        push_char(out, ',');
                    }
                    write_string(members[i].0.as_str(), out);
                    push_char(out, ':');
                    proof {
                        assert(decreases_to!(*self => self->Obj_0));
                        assert(decreases_to!(self->Obj_0 => self->Obj_0[i as int]));
                        assert(decreases_to!(self->Obj_0[i as int] => self->Obj_0[i as int].1));
                    }
                    let value = &members[i].1;
                    value.write_to(out);
                    proof {
                        lemma_print_members_snoc(vm, i as int);
                        assert(out@ =~= old(out)@ + seq!['{'] + spec_print_members(
                            vm.take(i + 1),
                        ));
                    }
                    i += 1;
                }
                push_char(out, '}');
                proof {
                    assert(vm.take(n as int) =~= vm);
                    assert(final(out)@ =~= old(out)@ + spec_print(self@));
                }
            },
        }
    }

    /// The compact text of this value.
    pub fn to_text(&self) -> (r: String)
        ensures
            r@ == spec_print(self@),
    {
        let mut out = String::new();
        self.write_to(&mut out);
        proof {
            assert(out@ =~= spec_print(self@));
        }
        out
    }

    /// A deep copy.
    pub fn duplicate(&self) -> (r: Json)
        ensures
            r@ == self@,
        decreases self,
    {
        match self {
            Json::Null => Json::Null,
            Json::Bool(b) => Json::Bool(*b),
            Json::Int(n) => Json::Int(*n),
            Json::Str(s) => Json::Str(s.clone()),
            Json::Arr(items) => {
                let n = items.len();
                let mut copy: Vec<Json> = Vec::new();
                let mut i: usize = 0;
                while i < n
                    invariant
                        0 <= i <= n,
                        n == items@.len(),
                        copy@.len() == i,
                        forall|k: int| 0 <= k < i ==> copy@[k]@ == items@[k]@,
                        *self == Json::Arr(*items),
                    decreases n - i,
                {
                    proof {
                        assert(decreases_to!(*self => self->Arr_0));
                        assert(decreases_to!(self->Arr_0 => self->Arr_0[i as int]));
                    }
                    let c = items[i].duplicate();
                    copy.push(c);
                    i += 1;
                }
                let r = Json::Arr(copy);
                proof {
                    lemma_view_items_props(copy@);
                    lemma_view_items_props(items@);
                    assert(view_items(copy@) =~= view_items(items@));
                }
                r
            },
            Json::Obj(members) => {
                let n = members.len();
                let mut copy: Vec<(String, Json)> = Vec::new();
                let mut i: usize = 0;
                while i < n
                    invariant
                        0 <= i <= n,
                        n == members@.len(),
                        copy@.len() == i,
                        forall|k: int|
                            0 <= k < i ==> copy@[k].0@ == members@[k].0@ && copy@[k].1@
                                == members@[k].1@,
                        *self == Json::Obj(*members),
                    decreases n - i,
                {
                    proof {
                        assert(decreases_to!(*self => self->Obj_0));
                        assert(decreases_to!(self->Obj_0 => self->Obj_0[i as int]));
                        assert(decreases_to!(self->Obj_0[i as int] => self->Obj_0[i as int].1));
                    }
                    let key = members[i].0.clone();
                    let value = members[i].1.duplicate();
                    copy.push((key, value));
                    i += 1;
                }
                let r = Json::Obj(copy);
                proof {
                    lemma_view_members_props(copy@);
                    lemma_view_members_props(members@);
                    assert(view_members(copy@) =~= view_members(members@));
                }
                r
            },
        }
    }

    /// For an object, the value of the first member named `key`.
    pub fn get<'a>(&'a self, key: &str) -> (r: Option<&'a Json>)
        ensures
            match self@ {
                JsonV::Obj(ms) => match r {
                    Some(v) => spec_obj_get(ms, key@) == Some(v@),
                    None => spec_obj_get(ms, key@) is None,
                },
                _ => r is None,
            },
            r matches Some(v) ==> decreases_to!(*self => *v),
    {
        match self {
            Json::Obj(members) => {
                let n = members.len();
                let mut i: usize = 0;
                proof {
                    lemma_view_members_props(members@);
                    assert(members@.skip(0) =~= members@);
                }
                while i < n
                    invariant
                        0 <= i <= n,
                        n == members@.len(),
                        *self == Json::Obj(*members),
                        self@ == JsonV::Obj(view_members(members@)),
                        view_members(members@).len() == n,
                        forall|k: int|
                            0 <= k < n ==> view_members(members@)[k] == (
                            members@[k].0@,
                            members@[k].1@,
                            ),
                        spec_obj_get(view_members(members@), key@) == spec_obj_get(
                            view_members(members@.skip(i as int)),
                            key@,
                        ),
                    decreases n - i,
                {
                    proof {
                        lemma_view_members_props(members@.skip(i as int));
                        assert(members@.skip(i as int)[0] == members@[i as int]);
                    }
                    if crate::util::str_eq(members[i].0.as_str(), key) {
                        proof {
                            assert(decreases_to!(*self => self->Obj_0));
                            assert(decreases_to!(self->Obj_0 => self->Obj_0[i as int]));
                            assert(decreases_to!(
                                self->Obj_0[i as int] => self->Obj_0[i as int].1));
                        }
                        return Some(&members[i].1);
                    }
                    proof {
                        assert(members@.skip(i as int).drop_first() =~= members@.skip(i + 1));
                        assert(view_members(members@.skip(i as int)).drop_first() =~= view_members(
                            members@.skip(i + 1),
                        ));
                    }
                    i += 1;
                }
                proof {
                    assert(members@.skip(n as int) =~= Seq::<(String, Json)>::empty());
                }
                None
            },
            _ => None,
        }
    }
}

} // verus!
