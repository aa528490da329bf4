//! The HTTP message-signing codec and the inbound verifier: parsing of the
//! `Signature` header's parameters, byte-exact construction of the signed
//! base string, the ordered verification pipeline with one distinct error
//! per failed precondition, and the outbound counterparts that fix the
//! delivery headers. Resolving the signing actor's key is the caller's job
//! (through the cache); everything here is a pure function of its inputs
//! and the named crypto results.

use vstd::prelude::*;
use crate::crypto::{
    B64_MAX_INPUT, B64_MAX_TEXT, b64_dec_of, b64_of, base64_decode, base64_encode,
    generate_digest,
    rsa_priv_key_ok, rsa_pub_key_ok, rsa_sha256_sign, rsa_sha256_verify, rsa_sign_of,
    rsa_verify_of, spec_digest,
};
use crate::util::{chars_of, find_char, lemma_find_bounds, push_char, spec_find, str_eq};

verus! {

/// Inbound verification failures, one per precondition of the algorithm.
#[derive(Debug, Clone, Copy, PartialEq, Eq, Structural)]
pub enum RequestVerificationError {
    /// No `Digest` header.
    NoMessageDigest,
    /// The `Digest` header is not readable text.
    BadMessageDigest,
    /// The body is not readable text.
    BadMessageBody,
    /// The `Digest` header does not match the received body.
    DigestDoesNotMatch,
    /// No `Signature` header.
    NoMessageSignature,
    /// The `Signature` header is not readable text.
    BadMessageSignature,
    /// The `Signature` header carries no `keyId` parameter.
    NoSignatureKey,
    /// The `Signature` header carries no `signature` parameter.
    NoSignature,
    /// The `signature` parameter is not valid base64.
    SignatureIncorrectBase64,
    /// The signing actor could not be fetched.
    ActorFetchFailed,
    /// The signing actor's body could not be read.
    ActorFetchBodyFailed,
    /// The signing actor's document could not be decoded.
    ActorDeserializeFailed,
    /// The `Signature` header carries no `headers` parameter.
    NoSignatureHeaders,
    /// The cryptographic check failed.
    SignatureVerifyFailed,
    /// No `Date` header.
    NoDate,
    /// A header named in the `headers` parameter is absent from the
    /// request.
    MissingSignedHeader,
    /// The resolved actor's PEM text is not a usable public key.
    BadPublicKey,
}

// ---------------------------------------------- Signature header parameters

/// The text with every double quote removed, as the original parameter
/// values are unquoted.
pub open spec fn spec_remove_quotes(s: Seq<char>) -> Seq<char>
    decreases s.len(),
{
    if s.len() == 0 {
        Seq::empty()
    } else {
        (if s[0] == '"' {
            Seq::<char>::empty()
        } else {
            seq![s[0]]
        }) + spec_remove_quotes(s.drop_first())
    }
}

proof fn lemma_remove_quotes_push(t: Seq<char>, c: char)
    ensures
        spec_remove_quotes(t.push(c)) == spec_remove_quotes(t) + (if c == '"' {
            Seq::<char>::empty()
        } else {
            seq![c]
        }),
    decreases t.len(),
{
    if t.len() == 0 {
        assert(t.push(c)[0] == c);
        assert(t.push(c).drop_first() =~= Seq::<char>::empty());
        assert(spec_remove_quotes(Seq::<char>::empty()) == Seq::<char>::empty());
        assert(spec_remove_quotes(t.push(c)) =~= spec_remove_quotes(t) + (if c == '"' {
            Seq::<char>::empty()
        } else {
            seq![c]
        }));
    } else {
        assert(t.push(c)[0] == t[0]);
        assert(t.push(c).drop_first() =~= t.drop_first().push(c));
        lemma_remove_quotes_push(t.drop_first(), c);
        assert(spec_remove_quotes(t.push(c).drop_first()) == spec_remove_quotes(
            t.drop_first().push(c),
        ));
        assert(spec_remove_quotes(t.push(c)) =~= spec_remove_quotes(t) + (if c == '"' {
            Seq::<char>::empty()
        } else {
            seq![c]
        }));
    }
}

/// The characters of `cs[start..end]` with double quotes removed.
fn remove_quotes(cs: &Vec<char>, start: usize, end: usize) -> (r: String)
    requires
        start <= end <= cs@.len(),
    ensures
        r@ == spec_remove_quotes(cs@.subrange(start as int, end as int)),
{
    let mut out = String::new();
    let mut i = start;
    proof {
        assert(cs@.subrange(start as int, start as int) =~= Seq::<char>::empty());
    }
    while i < end
        invariant
            start <= i <= end <= cs@.len(),
            out@ == spec_remove_quotes(cs@.subrange(start as int, i as int)),
        decreases end - i,
    {
        let c = cs[i];
        proof {
            assert(cs@.subrange(start as int, i + 1) =~= cs@.subrange(
                start as int,
                i as int,
            ).push(cs@[i as int]));
            lemma_remove_quotes_push(cs@.subrange(start as int, i as int), cs@[i as int]);
        }
        if c != '"' {
            push_char(&mut out, c);
        }
        proof {
            assert(out@ =~= spec_remove_quotes(cs@.subrange(start as int, i + 1)));
        }
        i += 1;
    }
    out
}

/// What one comma segment contributes for the parameter `k`: the segment is
/// split at its first `=`; when the left part is exactly `k`, the value is
/// the right part with quotes removed.
pub open spec fn spec_seg_param(seg: Seq<char>, k: Seq<char>) -> Option<Seq<char>> {
    let m = spec_find(seg, '=');
    if m == seg.len() {
        None
    } else if seg.take(m) == k {
        Some(spec_remove_quotes(seg.skip(m + 1)))
    } else {
        None
    }
}

/// The value of parameter `k` in a `Signature` header text: the text splits
/// at commas, each segment at its first `=`; a later occurrence of the same
/// parameter wins, as the original's map collection did.
pub open spec fn spec_param(s: Seq<char>, k: Seq<char>) -> Option<Seq<char>>
    decreases s.len(),
    via spec_param_via
{
    if s.len() == 0 {
        None
    } else {
        let j = spec_find(s, ',');
        let here = spec_seg_param(s.take(j), k);
        if j == s.len() {
            here
        } else {
            match spec_param(s.skip(j + 1), k) {
                Some(v) => Some(v),
                None => here,
            }
        }
    }
}

#[via_fn]
proof fn spec_param_via(s: Seq<char>, k: Seq<char>) {
    lemma_find_bounds(s, ',');
}

/// True when `cs[start..end]` equals `t`.
fn slice_eq_str(cs: &Vec<char>, start: usize, end: usize, t: &str) -> (r: bool)
    requires
        start <= end <= cs@.len(),
    ensures
        r == (cs@.subrange(start as int, end as int) == t@),
{
    let n = t.unicode_len();
    if end - start != n {
        proof {
            assert(cs@.subrange(start as int, end as int).len() != t@.len());
        }
        return false;
    }
    let mut i: usize = 0;
    while i < n
        invariant
            0 <= i <= n,
            start + n == end <= cs@.len(),
            n == t@.len(),
            forall|q: int| 0 <= q < i ==> cs@[start + q] == t@[q],
        decreases n - i,
    {
        if cs[start + i] != t.get_char(i) {
            proof {
                assert(cs@.subrange(start as int, end as int)[i as int] == cs@[start + i]);
            }
            return false;
        }
        i += 1;
    }
    proof {
        assert(cs@.subrange(start as int, end as int) =~= t@);
    }
    true
}

/// The value of parameter `k` in the text `cs[i..]`, later occurrences
/// winning.
fn find_param(cs: &Vec<char>, i: usize, k: &str) -> (r: Option<String>)
    requires
        i <= cs@.len(),
    ensures
        match r {
            Some(v) => spec_param(cs@.skip(i as int), k@) == Some(v@),
            None => spec_param(cs@.skip(i as int), k@) is None,
        },
    decreases cs@.len() - i,
{
    if i == cs.len() {
        proof {
            assert(cs@.skip(i as int) =~= Seq::<char>::empty());
        }
        return None;
    }
    let j = find_char(cs, i, ',');
    proof {
        assert(cs@.skip(i as int).take(j - i) =~= cs@.subrange(i as int, j as int));
    }
    let here = seg_param(cs, i, j, k);
    if j == cs.len() {
        proof {
            assert(j - i == cs@.skip(i as int).len());
        }
        here
    } else {
        proof {
            assert(cs@.skip(i as int).skip((j - i) + 1) =~= cs@.skip(j + 1));
        }
        match find_param(cs, j + 1, k) {
            Some(v) => Some(v),
            None => here,
        }
    }
}

/// What the segment `cs[start..end]` contributes for parameter `k`.
fn seg_param(cs: &Vec<char>, start: usize, end: usize, k: &str) -> (r: Option<String>)
    requires
        start <= end <= cs@.len(),
    ensures
        match r {
            Some(v) => spec_seg_param(cs@.subrange(start as int, end as int), k@) == Some(v@),
            None => spec_seg_param(cs@.subrange(start as int, end as int), k@) is None,
        },
{
    let ghost seg = cs@.subrange(start as int, end as int);
    let mut i = start;
    while i < end
        invariant
            start <= i <= end <= cs@.len(),
            seg == cs@.subrange(start as int, end as int),
            forall|q: int| start <= q < i ==> cs@[q] != '=',
        decreases end - i,
    {
        if cs[i] == '=' {
            proof {
                assert(forall|q: int| 0 <= q < i - start ==> seg[q] == cs@[start + q]);
                crate::util::lemma_find_at_index(seg, i - start, '=');
                assert(seg.take(i - start) =~= cs@.subrange(start as int, i as int));
                assert(seg.skip((i - start) + 1) =~= cs@.subrange(i + 1, end as int));
            }
            if slice_eq_str(cs, start, i, k) {
                return Some(remove_quotes(cs, i + 1, end));
            } else {
                return None;
            }
        }
        i += 1;
    }
    proof {
        assert(forall|q: int| 0 <= q < seg.len() ==> seg[q] == cs@[start + q]);
        crate::util::lemma_find_none(seg, '=');
    }
    None
}

/// The three parameters of a `Signature` header, unquoted.
#[derive(Debug, Clone)]
pub struct SigParams {
    pub key_id: String,
    pub headers: String,
    pub signature: String,
}

/// Parses a `Signature` header into its parameters. Each missing parameter
/// is its own error, in the order the verification algorithm checks them.
pub fn parse_signature_header(h: &str) -> (r: Result<SigParams, RequestVerificationError>)
    ensures
        match r {
            Ok(p) => {
                &&& spec_param(h@, "keyId"@) == Some(p.key_id@)
                &&& spec_param(h@, "signature"@) == Some(p.signature@)
                &&& spec_param(h@, "headers"@) == Some(p.headers@)
            },
            Err(e) => {
                &&& (e == RequestVerificationError::NoSignatureKey <==> spec_param(
                    h@,
                    "keyId"@,
                ) is None)
                &&& (e == RequestVerificationError::NoSignature ==> spec_param(h@, "keyId"@)
                    is Some && spec_param(h@, "signature"@) is None)
                &&& (e == RequestVerificationError::NoSignatureHeaders ==> spec_param(
                    h@,
                    "keyId"@,
                ) is Some && spec_param(h@, "signature"@) is Some && spec_param(
                    h@,
                    "headers"@,
                ) is None)
                &&& (e == RequestVerificationError::NoSignatureKey || e
                    == RequestVerificationError::NoSignature || e
                    == RequestVerificationError::NoSignatureHeaders)
            },
        },
{
    let cs = chars_of(h);
    proof {
        assert(cs@.skip(0) =~= h@);
    }
    let key_id = match find_param(&cs, 0, "keyId") {
        Some(v) => v,
        None => {
            return Err(RequestVerificationError::NoSignatureKey);
        },
    };
    let signature = match find_param(&cs, 0, "signature") {
        Some(v) => v,
        None => {
            return Err(RequestVerificationError::NoSignature);
        },
    };
    let headers = match find_param(&cs, 0, "headers") {
        Some(v) => v,
        None => {
            return Err(RequestVerificationError::NoSignatureHeaders);
        },
    };
    Ok(SigParams { key_id, headers, signature })
}

/// The part of a key identifier before any `#` fragment: the URL of the
/// actor owning the key, which the verifier fetches.
pub fn strip_fragment(key_id: &str) -> (r: String)
    ensures
        r@ == key_id@.take(spec_find(key_id@, '#')),
{
    let cs = chars_of(key_id);
    let j = find_char(&cs, 0, '#');
    proof {
        assert(cs@.skip(0) =~= cs@);
    }
    let mut out = String::new();
    let mut i: usize = 0;
    proof {
        assert(out@ =~= cs@.subrange(0, 0));
    }
    while i < j
        invariant
            0 <= i <= j <= cs@.len(),
            cs@ == key_id@,
            out@ == cs@.subrange(0, i as int),
        decreases j - i,
    {
        push_char(&mut out, cs[i]);
        proof {
            assert(cs@.subrange(0, i + 1) =~= cs@.subrange(0, i as int).push(cs@[i as int]));
        }
        i += 1;
    }
    proof {
        assert(key_id@.take(spec_find(key_id@, '#')) =~= cs@.subrange(0, j as int));
    }
    out
}

// ------------------------------------------------------- base-string text

/// An ASCII letter folded to lower case; other characters unchanged.
pub open spec fn spec_lower_char(c: char) -> char {
    if c == 'A' { 'a' }
    else if c == 'B' { 'b' }
    else if c == 'C' { 'c' }
    else if c == 'D' { 'd' }
    else if c == 'E' { 'e' }
    else if c == 'F' { 'f' }
    else if c == 'G' { 'g' }
    else if c == 'H' { 'h' }
    else if c == 'I' { 'i' }
    else if c == 'J' { 'j' }
    else if c == 'K' { 'k' }
    else if c == 'L' { 'l' }
    else if c == 'M' { 'm' }
    else if c == 'N' { 'n' }
    else if c == 'O' { 'o' }
    else if c == 'P' { 'p' }
    else if c == 'Q' { 'q' }
    else if c == 'R' { 'r' }
    else if c == 'S' { 's' }
    else if c == 'T' { 't' }
    else if c == 'U' { 'u' }
    else if c == 'V' { 'v' }
    else if c == 'W' { 'w' }
    else if c == 'X' { 'x' }
    else if c == 'Y' { 'y' }
    else if c == 'Z' { 'z' }
    else { c }
}

pub open spec fn spec_lower(s: Seq<char>) -> Seq<char>
    decreases s.len(),
{
    if s.len() == 0 {
        Seq::empty()
    } else {
        seq![spec_lower_char(s[0])] + spec_lower(s.drop_first())
    }
}

proof fn lemma_lower_push(t: Seq<char>, c: char)
    ensures
        spec_lower(t.push(c)) == spec_lower(t).push(spec_lower_char(c)),
    decreases t.len(),
{
    if t.len() == 0 {
        assert(t.push(c)[0] == c);
        assert(t.push(c).drop_first() =~= Seq::<char>::empty());
        assert(spec_lower(Seq::<char>::empty()) == Seq::<char>::empty());
        assert(spec_lower(t.push(c)) =~= spec_lower(t).push(spec_lower_char(c)));
    } else {
        assert(t.push(c)[0] == t[0]);
        assert(t.push(c).drop_first() =~= t.drop_first().push(c));
        lemma_lower_push(t.drop_first(), c);
        assert(spec_lower(t.push(c).drop_first()) == spec_lower(t.drop_first().push(c)));
        assert(spec_lower(t.push(c)) =~= spec_lower(t).push(spec_lower_char(c)));
    }
}

/// The ASCII-lowercase copy of `s`.
fn lower_ascii(s: &str) -> (r: String)
    ensures
        r@ == spec_lower(s@),
{
    let n = s.unicode_len();
    let mut out = String::new();
    let mut i: usize = 0;
    proof {
        assert(s@.take(0) =~= Seq::<char>::empty());
    }
    while i < n
        invariant
            0 <= i <= n,
            n == s@.len(),
            out@ == spec_lower(s@.take(i as int)),
        decreases n - i,
    {
        let c = s.get_char(i);
        let l = if c == 'A' { 'a' }
        else if c == 'B' { 'b' }
        else if c == 'C' { 'c' }
        else if c == 'D' { 'd' }
        else if c == 'E' { 'e' }
        else if c == 'F' { 'f' }
        else if c == 'G' { 'g' }
        else if c == 'H' { 'h' }
        else if c == 'I' { 'i' }
        else if c == 'J' { 'j' }
        else if c == 'K' { 'k' }
        else if c == 'L' { 'l' }
        else if c == 'M' { 'm' }
        else if c == 'N' { 'n' }
        else if c == 'O' { 'o' }
        else if c == 'P' { 'p' }
        else if c == 'Q' { 'q' }
        else if c == 'R' { 'r' }
        else if c == 'S' { 's' }
        else if c == 'T' { 't' }
        else if c == 'U' { 'u' }
        else if c == 'V' { 'v' }
        else if c == 'W' { 'w' }
        else if c == 'X' { 'x' }
        else if c == 'Y' { 'y' }
        else if c == 'Z' { 'z' }
        else { c };
        push_char(&mut out, l);
        proof {
            assert(s@.take(i + 1) =~= s@.take(i as int).push(s@[i as int]));
            lemma_lower_push(s@.take(i as int), s@[i as int]);
        }
        i += 1;
    }
    proof {
        assert(s@.take(n as int) =~= s@);
    }
    out
}

/// One rendered line of the base string: the pseudo-header
/// `(request-target)` renders from method and path, `host` from the
/// domain, and every other name from its looked-up value.
pub open spec fn spec_header_line(
    method_low: Seq<char>,
    path: Seq<char>,
    domain: Seq<char>,
    name: Seq<char>,
    value: Seq<char>,
) -> Seq<char> {
    if name == "(request-target)"@ {
        "(request-target): "@ + method_low + " "@ + path
    } else if name == "host"@ {
        "host: "@ + domain
    } else {
        name + ": "@ + value
    }
}

/// The lines for `names`/`values`, in order, joined by `\n`.
pub open spec fn spec_base_join(
    method_low: Seq<char>,
    path: Seq<char>,
    domain: Seq<char>,
    names: Seq<Seq<char>>,
    values: Seq<Seq<char>>,
) -> Seq<char>
    decreases names.len(),
{
    if names.len() == 0 {
        Seq::empty()
    } else {
        let line = spec_header_line(method_low, path, domain, names[0], values[0]);
        if names.len() == 1 {
            line
        } else {
            line + "\n"@ + spec_base_join(
                method_low,
                path,
                domain,
                names.drop_first(),
                values.drop_first(),
            )
        }
    }
}

/// The signature base string: the method lowercased, then the lines in the
/// given order joined by `\n`.
pub open spec fn spec_signature_base(
    method: Seq<char>,
    path: Seq<char>,
    domain: Seq<char>,
    names: Seq<Seq<char>>,
    values: Seq<Seq<char>>,
) -> Seq<char> {
    spec_base_join(spec_lower(method), path, domain, names, values)
}

/// Appends the lines for `names[i..]`/`values[i..]`.
fn write_base_lines(
    method_low: &str,
    path: &str,
    domain: &str,
    names: &Vec<String>,
    values: &Vec<String>,
    i: usize,
    out: &mut String,
)
    requires
        names@.len() == values@.len(),
        i <= names@.len(),
    ensures
        final(out)@ == old(out)@ + spec_base_join(
            method_low@,
            path@,
            domain@,
            names.deep_view().skip(i as int),
            values.deep_view().skip(i as int),
        ),
    decreases names@.len() - i,
{
    let ghost ns = names.deep_view().skip(i as int);
    let ghost vs = values.deep_view().skip(i as int);
    if i == names.len() {
        proof {
            assert(ns =~= Seq::<Seq<char>>::empty());
            assert(old(out)@ + spec_base_join(method_low@, path@, domain@, ns, vs) =~= old(out)@);
        }
        return ;
    }
    proof {
        assert(ns[0] == names@[i as int]@ && vs[0] == values@[i as int]@);
    }
    if str_eq(names[i].as_str(), "(request-target)") {
        out.append("(request-target): ");
        out.append(method_low);
        out.append(" ");
        out.append(path);
    } else if str_eq(names[i].as_str(), "host") {
        out.append("host: ");
        out.append(domain);
    } else {
        out.append(names[i].as_str());
        out.append(": ");
        out.append(values[i].as_str());
    }
    proof {
        assert(out@ =~= old(out)@ + spec_header_line(method_low@, path@, domain@, ns[0], vs[0]));
    }
    if i + 1 == names.len() {
        proof {
            assert(ns.len() == 1);
            assert(final(out)@ =~= old(out)@ + spec_base_join(
                method_low@,
                path@,
                domain@,
                ns,
                vs,
            ));
        }
        return ;
    }
    out.append("\n");
    write_base_lines(method_low, path, domain, names, values, i + 1, out);
    proof {
        assert(ns.drop_first() =~= names.deep_view().skip(i + 1));
        assert(vs.drop_first() =~= values.deep_view().skip(i + 1));
        assert(final(out)@ =~= old(out)@ + spec_base_join(method_low@, path@, domain@, ns, vs));
    }
}

/// The signature base string for `names` in order, each name's value taken
/// from the parallel `values`: `(request-target)` renders as the lowercased
/// method and the path, `host` as the domain, any other name as
/// `name: value`; lines joined by `\n`.
pub fn build_signature_base(
    method: &str,
    path: &str,
    domain: &str,
    names: &Vec<String>,
    values: &Vec<String>,
) -> (r: String)
    requires
        names@.len() == values@.len(),
    ensures
        r@ == spec_signature_base(method@, path@, domain@, names.deep_view(), values.deep_view()),
{
    let ml = lower_ascii(method);
    let mut out = String::new();
    write_base_lines(ml.as_str(), path, domain, names, values, 0, &mut out);
    proof {
        assert(names.deep_view().skip(0) =~= names.deep_view());
        assert(values.deep_view().skip(0) =~= values.deep_view());
        assert(out@ =~= spec_signature_base(
            method@,
            path@,
            domain@,
            names.deep_view(),
            values.deep_view(),
        ));
    }
    out
}

// --------------------------------------------- the verification pipeline

/// The first value under `k` in the request's header bag.
pub open spec fn spec_bag_lookup(
    names: Seq<Seq<char>>,
    values: Seq<Seq<char>>,
    k: Seq<char>,
) -> Option<Seq<char>>
    decreases names.len(),
{
    if names.len() == 0 || values.len() == 0 {
        None
    } else if names[0] == k {
        Some(values[0])
    } else {
        spec_bag_lookup(names.drop_first(), values.drop_first(), k)
    }
}

/// The comparison string rebuilt from the `headers` parameter (names
/// separated by spaces, in its order): `(request-target)` renders from the
/// request's method (`post` at an inbox) and path, `host` from the
/// instance's domain, every other name from the header actually received —
/// or nothing, when such a header is absent.
pub open spec fn spec_comparison(
    hdrs: Seq<char>,
    path: Seq<char>,
    domain: Seq<char>,
    names: Seq<Seq<char>>,
    values: Seq<Seq<char>>,
) -> Option<Seq<char>>
    decreases hdrs.len(),
    via spec_comparison_via
{
    let j = spec_find(hdrs, ' ');
    let name = hdrs.take(j);
    let line: Option<Seq<char>> = if name == "(request-target)"@ {
        Some("(request-target): post "@ + path)
    } else if name == "host"@ {
        Some("host: "@ + domain)
    } else {
        match spec_bag_lookup(names, values, name) {
            Some(v) => Some(name + ": "@ + v),
            None => None,
        }
    };
    if j == hdrs.len() {
        line
    } else {
        match line {
            None => None,
            Some(l) => match spec_comparison(hdrs.skip(j + 1), path, domain, names, values) {
                None => None,
                Some(rest) => Some(l + "\n"@ + rest),
            },
        }
    }
}

#[via_fn]
proof fn spec_comparison_via(
    hdrs: Seq<char>,
    path: Seq<char>,
    domain: Seq<char>,
    names: Seq<Seq<char>>,
    values: Seq<Seq<char>>,
) {
    lemma_find_bounds(hdrs, ' ');
}

/// The value of the first request header named `cs[start..end]`.
fn bag_lookup(
    names: &Vec<String>,
    values: &Vec<String>,
    cs: &Vec<char>,
    start: usize,
    end: usize,
) -> (r: Option<String>)
    requires
        names@.len() == values@.len(),
        start <= end <= cs@.len(),
    ensures
        match r {
            Some(v) => spec_bag_lookup(
                names.deep_view(),
                values.deep_view(),
                cs@.subrange(start as int, end as int),
            ) == Some(v@),
            None => spec_bag_lookup(
                names.deep_view(),
                values.deep_view(),
                cs@.subrange(start as int, end as int),
            ) is None,
        },
{
    let ghost k = cs@.subrange(start as int, end as int);
    let n = names.len();
    let mut i: usize = 0;
    proof {
        assert(names.deep_view().skip(0) =~= names.deep_view());
        assert(values.deep_view().skip(0) =~= values.deep_view());
    }
    while i < n
        invariant
            0 <= i <= n,
            n == names@.len() && n == values@.len(),
            k == cs@.subrange(start as int, end as int),
            start <= end <= cs@.len(),
            spec_bag_lookup(names.deep_view(), values.deep_view(), k) == spec_bag_lookup(
                names.deep_view().skip(i as int),
                values.deep_view().skip(i as int),
                k,
            ),
        decreases n - i,
    {
        proof {
            assert(names.deep_view().skip(i as int)[0] == names@[i as int]@);
            assert(values.deep_view().skip(i as int)[0] == values@[i as int]@);
        }
        if slice_eq_str(cs, start, end, names[i].as_str()) {
            return Some(values[i].clone());
        }
        proof {
            assert(names.deep_view().skip(i as int).drop_first() =~= names.deep_view().skip(
                i + 1,
            ));
            assert(values.deep_view().skip(i as int).drop_first() =~= values.deep_view().skip(
                i + 1,
            ));
        }
        i += 1;
    }
    proof {
        assert(names.deep_view().skip(n as int) =~= Seq::<Seq<char>>::empty());
    }
    None
}

/// Rebuilds the comparison string for the names in `cs[i..]`.
fn build_comparison(
    cs: &Vec<char>,
    i: usize,
    path: &str,
    domain: &str,
    names: &Vec<String>,
    values: &Vec<String>,
) -> (r: Option<String>)
    requires
        names@.len() == values@.len(),
        i <= cs@.len(),
    ensures
        match r {
            Some(s) => spec_comparison(
                cs@.skip(i as int),
                path@,
                domain@,
                names.deep_view(),
                values.deep_view(),
            ) == Some(s@),
            None => spec_comparison(
                cs@.skip(i as int),
                path@,
                domain@,
                names.deep_view(),
                values.deep_view(),
            ) is None,
        },
    decreases cs@.len() - i,
{
    let ghost h = cs@.skip(i as int);
    let j = find_char(cs, i, ' ');
    proof {
        assert(h.take(j - i) =~= cs@.subrange(i as int, j as int));
    }
    let line: Option<String> = if slice_eq_str(cs, i, j, "(request-target)") {
        let mut l = String::new();
        l.append("(request-target): post ");
        l.append(path);
        proof {
            assert(l@ =~= "(request-target): post "@ + path@);
        }
        Some(l)
    } else if slice_eq_str(cs, i, j, "host") {
        let mut l = String::new();
        l.append("host: ");
        l.append(domain);
        proof {
            assert(l@ =~= "host: "@ + domain@);
        }
        Some(l)
    } else {
        match bag_lookup(names, values, cs, i, j) {
            Some(v) => {
                let mut l = String::new();
                let mut q = i;
                proof {
                    assert(l@ =~= cs@.subrange(i as int, i as int));
                }
                while q < j
                    invariant
                        i <= q <= j <= cs@.len(),
                        l@ == cs@.subrange(i as int, q as int),
                    decreases j - q,
                {
                    push_char(&mut l, cs[q]);
                    proof {
                        assert(cs@.subrange(i as int, q + 1) =~= cs@.subrange(
                            i as int,
                            q as int,
                        ).push(cs@[q as int]));
                    }
                    q += 1;
                }
                l.append(": ");
                l.append(v.as_str());
                proof {
                    assert(l@ =~= cs@.subrange(i as int, j as int) + ": "@ + v@);
                }
                Some(l)
            },
            None => None,
        }
    };
    if j == cs.len() {
        proof {
            assert(j - i == h.len());
        }
        line
    } else {
        match line {
            None => None,
            Some(l) => {
                proof {
                    assert(h.skip((j - i) + 1) =~= cs@.skip(j + 1));
                }
                match build_comparison(cs, j + 1, path, domain, names, values) {
                    None => None,
                    Some(rest) => {
                        let mut out = String::new();
                        out.append(l.as_str());
                        out.append("\n");
                        out.append(rest.as_str());
                        proof {
                            assert(out@ =~= l@ + "\n"@ + rest@);
                        }
                        Some(out)
                    },
                }
            },
        }
    }
}

/// The whole inbound verification pipeline as a function of its inputs and
/// the named crypto results, each failed precondition its own error, in
/// the order the algorithm checks them. An over-long signature text counts
/// as invalid base64.
pub open spec fn spec_verify_inbound(
    digest_header: Option<Seq<char>>,
    signature_header: Option<Seq<char>>,
    date_present: bool,
    body: Seq<u8>,
    path: Seq<char>,
    domain: Seq<char>,
    names: Seq<Seq<char>>,
    values: Seq<Seq<char>>,
    pub_pem: Seq<char>,
) -> Result<(), RequestVerificationError> {
    match digest_header {
        None => Err(RequestVerificationError::NoMessageDigest),
        Some(d) => if d != "SHA-256="@ + spec_digest(body) {
            Err(RequestVerificationError::DigestDoesNotMatch)
        } else {
            match signature_header {
                None => Err(RequestVerificationError::NoMessageSignature),
                Some(sh) => match spec_param(sh, "keyId"@) {
                    None => Err(RequestVerificationError::NoSignatureKey),
                    Some(_kid) => match spec_param(sh, "signature"@) {
                        None => Err(RequestVerificationError::NoSignature),
                        Some(sig_txt) => match spec_param(sh, "headers"@) {
                            None => Err(RequestVerificationError::NoSignatureHeaders),
                            Some(hdrs) => if !date_present {
                                Err(RequestVerificationError::NoDate)
                            } else {
                                match spec_comparison(hdrs, path, domain, names, values) {
                                    None => Err(RequestVerificationError::MissingSignedHeader),
                                    Some(base) => if sig_txt.len() > B64_MAX_TEXT {
                                        Err(RequestVerificationError::SignatureIncorrectBase64)
                                    } else {
                                        match b64_dec_of(sig_txt) {
                                            None => Err(
                                                RequestVerificationError::SignatureIncorrectBase64,
                                            ),
                                            Some(sig) => if !rsa_pub_key_ok(pub_pem) {
                                                Err(RequestVerificationError::BadPublicKey)
                                            } else if rsa_verify_of(pub_pem, base, sig) {
                                                Ok(())
                                            } else {
                                                Err(
                                                    RequestVerificationError::SignatureVerifyFailed,
                                                )
                                            },
                                        }
                                    },
                                }
                            },
                        },
                    },
                },
            }
        },
    }
}

/// Verifies one inbound request against the already-resolved public key of
/// its signing actor, following the algorithm's order: the `Digest` header
/// must be present and match the received body; the `Signature` header
/// must be present with its `keyId`, `signature` and `headers` parameters;
/// a `Date` header must be present; the base string is rebuilt from the
/// `headers` parameter over the headers actually received; and the
/// signature must verify cryptographically. Resolving the key from `keyId`
/// (see [`parse_signature_header`] and [`strip_fragment`]) is the caller's
/// step between parsing and this call.
pub fn verify_inbound(
    digest_header: Option<&str>,
    signature_header: Option<&str>,
    date_present: bool,
    body: &[u8],
    path: &str,
    domain: &str,
    header_names: &Vec<String>,
    header_values: &Vec<String>,
    pub_pem: &str,
) -> (r: Result<(), RequestVerificationError>)
    requires
        header_names@.len() == header_values@.len(),
    ensures
        r == spec_verify_inbound(
            match digest_header {
                Some(d) => Some(d@),
                None => None,
            },
            match signature_header {
                Some(s) => Some(s@),
                None => None,
            },
            date_present,
            body@,
            path@,
            domain@,
            header_names.deep_view(),
            header_values.deep_view(),
            pub_pem@,
        ),
{
    let d = match digest_header {
        None => {
            return Err(RequestVerificationError::NoMessageDigest);
        },
        Some(d) => d,
    };
    let digest = generate_digest(body);
    let mut expected = String::new();
    expected.append("SHA-256=");
    expected.append(digest.as_str());
    proof {
        assert(expected@ =~= "SHA-256="@ + spec_digest(body@));
    }
    if !str_eq(d, expected.as_str()) {
        return Err(RequestVerificationError::DigestDoesNotMatch);
    }
    let sh = match signature_header {
        None => {
            return Err(RequestVerificationError::NoMessageSignature);
        },
        Some(s) => s,
    };
    let params = match parse_signature_header(sh) {
        Ok(p) => p,
        Err(e) => {
            return Err(e);
        },
    };
    if !date_present {
        return Err(RequestVerificationError::NoDate);
    }
    let hcs = chars_of(params.headers.as_str());
    proof {
        assert(hcs@.skip(0) =~= params.headers@);
    }
    let base = match build_comparison(&hcs, 0, path, domain, header_names, header_values) {
        None => {
            return Err(RequestVerificationError::MissingSignedHeader);
        },
        Some(b) => b,
    };
    if params.signature.as_str().unicode_len() > B64_MAX_TEXT {
        return Err(RequestVerificationError::SignatureIncorrectBase64);
    }
    let sig = match base64_decode(params.signature.as_str()) {
        None => {
            return Err(RequestVerificationError::SignatureIncorrectBase64);
        },
        Some(s) => s,
    };
    match rsa_sha256_verify(pub_pem, base.as_str(), sig.as_slice()) {
        None => Err(RequestVerificationError::BadPublicKey),
        Some(true) => Ok(()),
        Some(false) => Err(RequestVerificationError::SignatureVerifyFailed),
    }
}

/// [`verify_inbound`] against a resolved actor: the key is the PEM text of
/// the actor's public-key descriptor.
pub fn verify_inbound_actor(
    digest_header: Option<&str>,
    signature_header: Option<&str>,
    date_present: bool,
    body: &[u8],
    path: &str,
    domain: &str,
    header_names: &Vec<String>,
    header_values: &Vec<String>,
    actor: &crate::vocab::VerificationActor,
) -> (r: Result<(), RequestVerificationError>)
    requires
        header_names@.len() == header_values@.len(),
    ensures
        r == spec_verify_inbound(
            match digest_header {
                Some(d) => Some(d@),
                None => None,
            },
            match signature_header {
                Some(s) => Some(s@),
                None => None,
            },
            date_present,
            body@,
            path@,
            domain@,
            header_names.deep_view(),
            header_values.deep_view(),
            actor@.public_key.public_key_pem,
        ),
{
    verify_inbound(
        digest_header,
        signature_header,
        date_present,
        body,
        path,
        domain,
        header_names,
        header_values,
        actor.public_key.public_key_pem.as_str(),
    )
}

/// A wrong `Digest` header is rejected with the digest-mismatch error, for
/// every body and every other input.
pub proof fn lemma_digest_mismatch(
    d: Seq<char>,
    sh: Option<Seq<char>>,
    date_present: bool,
    body: Seq<u8>,
    path: Seq<char>,
    domain: Seq<char>,
    names: Seq<Seq<char>>,
    values: Seq<Seq<char>>,
    pub_pem: Seq<char>,
)
    requires
        d != "SHA-256="@ + spec_digest(body),
    ensures
        spec_verify_inbound(Some(d), sh, date_present, body, path, domain, names, values, pub_pem)
            == Err::<(), RequestVerificationError>(RequestVerificationError::DigestDoesNotMatch),
{
}

// ------------------------------------------------------ outbound delivery

/// The signed base string of a delivery: the original signs exactly the
/// request target `post /inbox`, the destination host, the date, and the
/// body digest.
pub open spec fn spec_delivery_base(
    to_domain: Seq<char>,
    date: Seq<char>,
    digest_b64: Seq<char>,
) -> Seq<char> {
    "(request-target): post /inbox\nhost: "@ + to_domain + "\ndate: "@ + date
        + "\ndigest: SHA-256="@ + digest_b64
}

/// The base string a delivery signs.
pub fn delivery_base(to_domain: &str, date: &str, digest_b64: &str) -> (r: String)
    ensures
        r@ == spec_delivery_base(to_domain@, date@, digest_b64@),
{
    let mut s = String::new();
    s.append("(request-target): post /inbox\nhost: ");
    s.append(to_domain);
    s.append("\ndate: ");
    s.append(date);
    s.append("\ndigest: SHA-256=");
    s.append(digest_b64);
    proof {
        assert(s@ =~= spec_delivery_base(to_domain@, date@, digest_b64@));
    }
    s
}

/// The `Signature` header text of a delivery.
pub open spec fn spec_signature_header(key_id: Seq<char>, sig_b64: Seq<char>) -> Seq<char> {
    "keyId=\""@ + key_id + "\",headers=\"(request-target) host date digest\",signature=\""@
        + sig_b64 + "\""@
}

/// Assembles the outbound `Signature` header.
pub fn signature_header(key_id: &str, sig_b64: &str) -> (r: String)
    ensures
        r@ == spec_signature_header(key_id@, sig_b64@),
{
    let mut s = String::new();
    s.append("keyId=\"");
    s.append(key_id);
    s.append("\",headers=\"(request-target) host date digest\",signature=\"");
    s.append(sig_b64);
    s.append("\"");
    proof {
        assert(s@ =~= spec_signature_header(key_id@, sig_b64@));
    }
    s
}

/// The base64 signature text of one base string: what a signed request
/// carries in its `signature` parameter. It fails exactly when the PEM
/// text is not a usable private key or the raw signature is too large to
/// encode.
pub fn sign_base(priv_pem: &str, base: &str) -> (r: Option<String>)
    ensures
        r is Some <==> rsa_priv_key_ok(priv_pem@) && rsa_sign_of(
            priv_pem@,
            base@,
        ).len() <= B64_MAX_INPUT,
        r matches Some(s) ==> s@ == b64_of(rsa_sign_of(priv_pem@, base@)),
{
    let raw = match rsa_sha256_sign(priv_pem, base) {
        None => {
            return None;
        },
        Some(s) => s,
    };
    if raw.len() > B64_MAX_INPUT {
        return None;
    }
    Some(base64_encode(raw.as_slice()))
}

/// The computed headers of one signed delivery; the application sends them
/// with the document as the body.
#[derive(Debug, Clone)]
pub struct SignedDelivery {
    pub digest: String,
    pub signature: String,
}

/// Computes the `Digest` value and `Signature` header of a delivery of
/// `document` to the inbox of `to_domain` at `date`, signed with the given
/// key. It fails exactly when the PEM text is not a usable private key or
/// the raw signature is too large to encode.
pub fn sign_delivery(
    document: &[u8],
    key_id: &str,
    to_domain: &str,
    date: &str,
    priv_pem: &str,
) -> (r: Option<SignedDelivery>)
    ensures
        ({
            let base = spec_delivery_base(to_domain@, date@, spec_digest(document@));
            &&& (r is Some <==> rsa_priv_key_ok(priv_pem@) && rsa_sign_of(
                priv_pem@,
                base,
            ).len() <= B64_MAX_INPUT)
            &&& (r matches Some(sd) ==> {
                &&& sd.digest@ == spec_digest(document@)
                &&& sd.signature@ == spec_signature_header(
                    key_id@,
                    b64_of(rsa_sign_of(priv_pem@, base)),
                )
            })
        }),
{
    let digest = generate_digest(document);
    let base = delivery_base(to_domain, date, digest.as_str());
    let sig_b64 = match sign_base(priv_pem, base.as_str()) {
        None => {
            return None;
        },
        Some(s) => s,
    };
    let signature = signature_header(key_id, sig_b64.as_str());
    Some(SignedDelivery { digest, signature })
}

} // verus!
