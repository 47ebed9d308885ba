//! The request assembler: turns collected parameter values into a request
//! descriptor, substituting path placeholders and encoding query values
//! under the per-location rules.

use vstd::prelude::*;

use crate::text::{chars_to_string, push_all, string_to_chars};
use crate::value::{text_of, to_text, Val, ValSpec};

verus! {

broadcast use vstd::std_specs::vec::group_vec_axioms, vstd::seq::group_seq_axioms;

/// The fully resolved, encoding-ready representation of one request:
/// method, base URL, path with placeholders substituted, the query,
/// header and cookie values in declaration order, and the optional body.
pub struct RequestInit {
    pub method: String,
    pub base: String,
    pub path: String,
    pub query: Vec<(String, Option<Val>)>,
    pub header: Vec<(String, Val)>,
    pub cookie: Vec<(String, Val)>,
    pub body: Option<Val>,
}

/// A collected value in its plain textual form.
pub struct ParamsValue(pub Val);

impl ParamsValue {
    /// The textual form: booleans and integers in their usual spelling,
    /// strings verbatim, arrays joined with commas, null and objects
    /// empty.
    pub fn to_text_string(&self) -> (r: String)
        ensures
            r@ == text_of(self.0@),
    {
        crate::value::to_text_string(&self.0)
    }
}

/// Every occurrence of `pat` in `s` replaced by `rep`, left to right,
/// without rescanning what was substituted. An empty pattern replaces
/// nothing.
pub open spec fn replace_all(s: Seq<char>, pat: Seq<char>, rep: Seq<char>) -> Seq<char>
    decreases s.len(),
{
    if pat.len() == 0 {
        s
    } else if s.len() < pat.len() {
        s
    } else if s.subrange(0, pat.len() as int) == pat {
        rep + replace_all(s.skip(pat.len() as int), pat, rep)
    } else {
        seq![s[0]] + replace_all(s.drop_first(), pat, rep)
    }
}

/// Whether `pat` occurs in `s` starting at `i`.
fn match_at(s: &Vec<char>, i: usize, pat: &Vec<char>) -> (r: bool)
    requires
        i + pat@.len() <= s@.len(),
    ensures
        r == (s@.subrange(i as int, i + pat@.len()) == pat@),
{
    let slen = s.len();
    let mut k: usize = 0;
    while k < pat.len()
        invariant
            0 <= k <= pat@.len(),
            i + pat@.len() <= s@.len(),
            slen == s@.len(),
            forall|j: int| 0 <= j < k ==> s@[i + j] == pat@[j],
        decreases pat@.len() - k,
    {
        assert(i + k < slen);
        if s[i + k] != pat[k] {
            assert(s@.subrange(i as int, i + pat@.len())[k as int] == s@[i + k]);
            return false;
        }
        k = k + 1;
    }
    assert(s@.subrange(i as int, i + pat@.len()) =~= pat@);
    true
}

/// Replaces every occurrence of `pat` in `s` by `rep`.
#[verifier::loop_isolation(false)]
pub fn replace_all_chars(s: &Vec<char>, pat: &Vec<char>, rep: &Vec<char>) -> (r: Vec<char>)
    ensures
        r@ == replace_all(s@, pat@, rep@),
{
    if pat.len() == 0 {
        let mut out: Vec<char> = Vec::new();
        push_all(&mut out, s);
        return out;
    }
    let mut out: Vec<char> = Vec::new();
    let mut i: usize = 0;
    proof {
        assert(s@.skip(0) =~= s@);
    }
    while i < s.len()
        invariant
            0 <= i <= s@.len(),
            pat@.len() > 0,
            replace_all(s@, pat@, rep@) == out@ + replace_all(s@.skip(i as int), pat@, rep@),
        decreases s@.len() - i,
    {
        let ghost rest = s@.skip(i as int);
        if pat.len() <= s.len() - i && match_at(s, i, pat) {
            proof {
                assert(rest.subrange(0, pat@.len() as int) =~= s@.subrange(
                    i as int,
                    i + pat@.len(),
                ));
                assert(rest.skip(pat@.len() as int) =~= s@.skip(i + pat@.len()));
            }
            push_all(&mut out, rep);
            i = i + pat.len();
        } else {
            proof {
                if rest.len() >= pat@.len() {
                    assert(rest.subrange(0, pat@.len() as int) =~= s@.subrange(
                        i as int,
                        i + pat@.len(),
                    ));
                }
                assert(rest.drop_first() =~= s@.skip(i as int + 1));
                assert(rest[0] == s@[i as int]);
            }
            proof {
                assert(replace_all(rest, pat@, rep@) =~= seq![rest[0]] + replace_all(
                    rest.drop_first(),
                    pat@,
                    rep@,
                ));
            }
            out.push(s[i]);
            i = i + 1;
        }
    }
    proof {
        assert(s@.skip(s@.len() as int).len() == 0);
        assert(out@ + replace_all(s@.skip(s@.len() as int), pat@, rep@) =~= out@);
    }
    out
}

/// The placeholder of a path parameter: its name in braces.
pub open spec fn placeholder(name: Seq<char>) -> Seq<char> {
    seq!['{'] + name + seq!['}']
}

/// The path with the given parameter values substituted, in order: each
/// present value replaces every occurrence of its placeholder with the
/// value's textual form; absent values substitute nothing.
pub open spec fn subst_path(path: Seq<char>, params: Seq<(String, Option<Val>)>, i: int) -> Seq<
    char,
>
    decreases i,
{
    if i <= 0 {
        path
    } else if i > params.len() {
        subst_path(path, params, params.len() as int)
    } else {
        let prev = subst_path(path, params, i - 1);
        match params[i - 1].1 {
            Option::Some(v) => replace_all(prev, placeholder(params[i - 1].0@), text_of(v@)),
            Option::None => prev,
        }
    }
}

/// Substitutes the collected path parameters into the path template.
#[verifier::loop_isolation(false)]
pub fn substitute_path(path: &String, params: &Vec<(String, Option<Val>)>) -> (r: String)
    ensures
        r@ == subst_path(path@, params@, params@.len() as int),
{
    let mut cur: Vec<char> = string_to_chars(path.as_str());
    let mut i: usize = 0;
    while i < params.len()
        invariant
            0 <= i <= params@.len(),
            cur@ == subst_path(path@, params@, i as int),
        decreases params@.len() - i,
    {
        match &params[i].1 {
            Option::Some(v) => {
                let mut pat: Vec<char> = Vec::new();
                pat.push('{');
                let name = string_to_chars(params[i].0.as_str());
                push_all(&mut pat, &name);
                pat.push('}');
                assert(pat@ =~= placeholder(params@[i as int].0@));
                let rep = to_text(v);
                cur = replace_all_chars(&cur, &pat, &rep);
            },
            Option::None => {},
        }
        i = i + 1;
    }
    chars_to_string(&cur)
}

/// The query fragment one parameter contributes: nothing when the value is
/// absent; the bare name for boolean true; nothing for boolean false; and
/// `name=text` otherwise, arrays joined with commas by their textual form.
pub open spec fn query_piece(name: Seq<char>, v: Option<ValSpec>) -> Option<Seq<char>> {
    match v {
        Option::None => Option::None,
        Option::Some(ValSpec::Bool(b)) => if b {
            Option::Some(name)
        } else {
            Option::None
        },
        Option::Some(x) => Option::Some(name + seq!['='] + text_of(x)),
    }
}

/// The rendered fragments of the first `i` query parameters, in order.
pub open spec fn query_pieces(params: Seq<(String, Option<Val>)>, i: int) -> Seq<Seq<char>>
    decreases i,
{
    if i <= 0 {
        Seq::<Seq<char>>::empty()
    } else if i > params.len() {
        query_pieces(params, params.len() as int)
    } else {
        let prev = query_pieces(params, i - 1);
        match query_piece(params[i - 1].0@, match params[i - 1].1 {
            Option::Some(v) => Option::Some(v@),
            Option::None => Option::None,
        }) {
            Option::Some(p) => prev.push(p),
            Option::None => prev,
        }
    }
}

/// The given fragments joined with `&`.
pub open spec fn join_amp(pieces: Seq<Seq<char>>, i: int) -> Seq<char>
    decreases i,
{
    if i <= 0 {
        Seq::<char>::empty()
    } else if i > pieces.len() {
        join_amp(pieces, pieces.len() as int)
    } else if i == 1 {
        pieces[0]
    } else {
        join_amp(pieces, i - 1) + seq!['&'] + pieces[i - 1]
    }
}

/// The whole query string of a parameter list: its fragments joined with
/// `&`; empty when no parameter contributes one.
pub open spec fn query_text(params: Seq<(String, Option<Val>)>) -> Seq<char> {
    let pieces = query_pieces(params, params.len() as int);
    join_amp(pieces, pieces.len() as int)
}

/// A joined prefix ignores fragments appended after it.
proof fn lemma_join_amp_push(pieces: Seq<Seq<char>>, p: Seq<char>, i: int)
    requires
        0 <= i <= pieces.len(),
    ensures
        join_amp(pieces.push(p), i) == join_amp(pieces, i),
    decreases i,
{
    if i > 0 {
        lemma_join_amp_push(pieces, p, i - 1);
        assert(pieces.push(p)[i - 1] == pieces[i - 1]);
        if i == 1 {
            assert(pieces.push(p)[0] == pieces[0]);
        }
    }
}

/// Renders the query parameters: absent values and boolean false are
/// omitted, boolean true renders as the bare name, everything else as
/// `name=value`, joined with `&`.
#[verifier::loop_isolation(false)]
pub fn render_query(params: &Vec<(String, Option<Val>)>) -> (r: String)
    ensures
        r@ == query_text(params@),
{
    let mut out: Vec<char> = Vec::new();
    let mut count: usize = 0;
    let mut i: usize = 0;
    while i < params.len()
        invariant
            0 <= i <= params@.len(),
            count as int == query_pieces(params@, i as int).len(),
            count <= i,
            out@ == join_amp(
                query_pieces(params@, i as int),
                query_pieces(params@, i as int).len() as int,
            ),
        decreases params@.len() - i,
    {
        let ghost prev = query_pieces(params@, i as int);
        let ghost vspec: Option<ValSpec> = match params@[i as int].1 {
            Option::Some(v) => Option::Some(v@),
            Option::None => Option::None,
        };
        let piece: Option<Vec<char>> = match &params[i].1 {
            Option::None => Option::None,
            Option::Some(v) => {
                if v.is_boolean() {
                    let truth = match v {
                        Val::Bool(b) => *b,
                        _ => false,
                    };
                    if truth {
                        let p = string_to_chars(params[i].0.as_str());
                        assert(query_piece(params@[i as int].0@, vspec) == Option::Some(p@));
                        Option::Some(p)
                    } else {
                        assert(query_piece(params@[i as int].0@, vspec) is None);
                        Option::None
                    }
                } else {
                    let mut p = string_to_chars(params[i].0.as_str());
                    p.push('=');
                    let t = to_text(v);
                    push_all(&mut p, &t);
                    assert(p@ =~= params@[i as int].0@ + seq!['='] + text_of(v@));
                    assert(query_piece(params@[i as int].0@, vspec) == Option::Some(p@));
                    Option::Some(p)
                }
            },
        };
        match piece {
            Option::Some(p) => {
                proof {
                    assert(query_pieces(params@, i as int + 1) == prev.push(p@));
                    lemma_join_amp_push(prev, p@, prev.len() as int);
                }
                if count > 0 {
                    out.push('&');
                }
                push_all(&mut out, &p);
                count = count + 1;
                proof {
                    let cur = query_pieces(params@, i as int + 1);
                    assert(cur.last() == p@);
                    assert(cur.drop_last() =~= prev);
                    assert(out@ =~= join_amp(cur, cur.len() as int));
                }
            },
            Option::None => {
                proof {
                    assert(query_pieces(params@, i as int + 1) == prev);
                }
            },
        }
        i = i + 1;
    }
    chars_to_string(&out)
}

/// The full URL text of a request: base, substituted path, and the query
/// string after `?` when any parameter contributed to it.
pub open spec fn url_text(r: RequestInit) -> Seq<char> {
    let qs = query_text(r.query@);
    if qs.len() == 0 {
        r.base@ + r.path@
    } else {
        r.base@ + r.path@ + seq!['?'] + qs
    }
}

impl RequestInit {
    /// Renders the request's full URL.
    pub fn render_url(&self) -> (r: String)
        ensures
            r@ == url_text(*self),
    {
        let mut out: Vec<char> = string_to_chars(self.base.as_str());
        let p = string_to_chars(self.path.as_str());
        push_all(&mut out, &p);
        let qs = render_query(&self.query);
        if qs.as_str().unicode_len() > 0 {
            out.push('?');
            let qc = string_to_chars(qs.as_str());
            push_all(&mut out, &qc);
        }
        assert(out@ =~= url_text(*self));
        chars_to_string(&out)
    }
}

/// The present named values of a parameter list, order kept.
pub open spec fn present_params(l: Seq<(String, Option<Val>)>) -> Seq<(String, Val)>
    decreases l.len(),
{
    if l.len() == 0 {
        Seq::<(String, Val)>::empty()
    } else {
        match l.last().1 {
            Option::Some(v) => present_params(l.drop_last()).push((l.last().0, v)),
            Option::None => present_params(l.drop_last()),
        }
    }
}

/// Builds the request descriptor from the collected values: the method
/// and base are taken as given; every present path value is substituted
/// into the path template; the query list keeps every query parameter in
/// declaration order, value present or not; headers and cookies keep only
/// the present values, in order; the body is attached as collected.
pub fn build_request(
    method: String,
    base: String,
    path_template: &String,
    path_params: Vec<(String, Option<Val>)>,
    query_params: Vec<(String, Option<Val>)>,
    header_params: Vec<(String, Option<Val>)>,
    cookie_params: Vec<(String, Option<Val>)>,
    body: Option<Val>,
) -> (r: RequestInit)
    ensures
        r.method == method,
        r.base == base,
        r.path@ == subst_path(path_template@, path_params@, path_params@.len() as int),
        r.query@ == query_params@,
        r.header@ == present_params(header_params@),
        r.cookie@ == present_params(cookie_params@),
        r.body == body,
{
    let path = substitute_path(path_template, &path_params);
    let header = keep_present(header_params);
    let cookie = keep_present(cookie_params);
    RequestInit { method, base, path, query: query_params, header, cookie, body }
}

/// Keeps the present values of a parameter list, order kept.
#[verifier::loop_isolation(false)]
fn keep_present(l: Vec<(String, Option<Val>)>) -> (r: Vec<(String, Val)>)
    ensures
        r@ == present_params(l@),
{
    let ghost orig = l@;
    let mut out: Vec<(String, Val)> = Vec::new();
    let mut rest = l;
    let ghost c: int = 0;
    while rest.len() > 0
        invariant
            0 <= c <= orig.len(),
            rest@ == orig.skip(c),
            out@ == present_params(orig.subrange(0, c)),
        decreases rest@.len(),
    {
        let head = rest.remove(0);
        proof {
            assert(head == orig[c]);
            assert(orig.subrange(0, c + 1).drop_last() =~= orig.subrange(0, c));
            assert(orig.subrange(0, c + 1).last() == orig[c]);
            assert(rest@ =~= orig.skip(c + 1));
        }
        match head.1 {
            Option::Some(v) => {
                out.push((head.0, v));
            },
            Option::None => {},
        }
        proof {
            c = c + 1;
        }
    }
    proof {
        assert(orig.subrange(0, orig.len() as int) =~= orig);
    }
    out
}

} // verus!
