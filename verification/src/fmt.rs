//! The output formatters: a request descriptor rendered as curl arguments
//! or as a fetch-style call template.

use vstd::prelude::*;

use crate::req::{url_text, RequestInit};
use crate::text::{
    chars_to_string, join_char, lemma_join_char_push, push_all, push_str_chars, string_to_chars,
};
use crate::value::{json_of, text_of, to_json, to_text};

verus! {

broadcast use vstd::std_specs::vec::group_vec_axioms, vstd::seq::group_seq_axioms, vstd::string::group_string_axioms;

/// Why a request could not be rendered.
#[derive(Debug, PartialEq, Eq)]
pub enum FormatError {
    /// The assembled URL does not parse; carries the URL text.
    InvalidUrl(String),
}

/// Why a formatter name could not be understood.
#[derive(Debug, PartialEq, Eq)]
pub enum FromStrError {
    NoImplements(String),
}

/// The two output formats.
#[derive(Debug, Clone, Copy, PartialEq, Eq)]
pub enum Formatter {
    Curl,
    Fetch,
}

impl Formatter {
    /// Understands `curl` and `fetch`; any other name is refused, named.
    pub fn from_str(s: &String) -> (r: Result<Formatter, FromStrError>)
        ensures
            s@ == "curl"@ ==> r == Result::<Formatter, FromStrError>::Ok(Formatter::Curl),
            s@ == "fetch"@ ==> r == Result::<Formatter, FromStrError>::Ok(Formatter::Fetch),
            s@ != "curl"@ && s@ != "fetch"@ ==> (r matches Result::Err(
                FromStrError::NoImplements(m),
            ) && m@ == s@),
    {
        proof {
            reveal_strlit("curl");
            reveal_strlit("fetch");
            assert("curl"@.len() == 4);
            assert("fetch"@.len() == 5);
            assert("curl"@ != "fetch"@);
        }
        let cs = string_to_chars(s.as_str());
        if crate::text::chars_eq_str(&cs, "curl") {
            Result::Ok(Formatter::Curl)
        } else if crate::text::chars_eq_str(&cs, "fetch") {
            Result::Ok(Formatter::Fetch)
        } else {
            Result::Err(FromStrError::NoImplements(s.clone()))
        }
    }
}

/// Whether a URL text parses as an absolute URL.
pub uninterp spec fn url_parse_ok(s: Seq<char>) -> bool;

/// Relies on url's `Url::parse`: whether a text parses is a function of
/// the text alone.
#[verifier::external_body]
fn url_parses(s: &str) -> (r: bool)
    ensures
        r == url_parse_ok(s@),
{
    url::Url::parse(s).is_ok()
}

/// The uppercase of an ASCII letter; any other character is unchanged.
pub open spec fn upper_char(c: char) -> char {
    if 'a' <= c && c <= 'z' {
        ((c as u8) - 32) as char
    } else {
        c
    }
}

/// The character-wise ASCII uppercase of a text.
pub open spec fn upper_text(s: Seq<char>, i: int) -> Seq<char>
    decreases i,
{
    if i <= 0 {
        Seq::<char>::empty()
    } else if i > s.len() {
        upper_text(s, s.len() as int)
    } else {
        upper_text(s, i - 1).push(upper_char(s[i - 1]))
    }
}

/// Uppercases the ASCII letters of a string.
#[verifier::loop_isolation(false)]
fn to_upper(s: &String) -> (r: Vec<char>)
    ensures
        r@ == upper_text(s@, s@.len() as int),
{
    let cs = string_to_chars(s.as_str());
    let mut out: Vec<char> = Vec::new();
    let mut i: usize = 0;
    while i < cs.len()
        invariant
            0 <= i <= cs@.len(),
            cs@ == s@,
            out@ == upper_text(s@, i as int),
        decreases cs@.len() - i,
    {
        let c = cs[i];
        if 'a' <= c && c <= 'z' {
            out.push((((c as u8) - 32)) as char);
        } else {
            out.push(c);
        }
        i = i + 1;
        assert(out@ =~= upper_text(s@, i as int));
    }
    out
}

/// The `-H` argument of one header: `-H 'name: value'`.
pub open spec fn header_arg(name: Seq<char>, v: crate::value::ValSpec) -> Seq<char> {
    "-H '"@ + name + ": "@ + text_of(v) + seq!['\'']
}

/// The curl argument list of a request: `-X` with the method, the full
/// URL in single quotes, one `-H 'name: value'` per header in order, and
/// `-d` with the JSON body when one is present.
pub open spec fn curl_args_text(r: RequestInit) -> Seq<Seq<char>> {
    let head = seq!["-X "@ + r.method@, seq!['\''] + url_text(r) + seq!['\'']];
    let hs = header_args_text(r.header@, r.header@.len() as int);
    let body = match r.body {
        Option::Some(b) => seq!["-d '"@ + json_of(b@) + seq!['\'']],
        Option::None => Seq::<Seq<char>>::empty(),
    };
    head + hs + body
}

/// The `-H` arguments of the first `i` headers, in order.
pub open spec fn header_args_text(headers: Seq<(String, crate::value::Val)>, i: int) -> Seq<
    Seq<char>,
>
    decreases i,
{
    if i <= 0 {
        Seq::<Seq<char>>::empty()
    } else if i > headers.len() {
        header_args_text(headers, headers.len() as int)
    } else {
        header_args_text(headers, i - 1).push(header_arg(headers[i - 1].0@, headers[i - 1].1@))
    }
}

impl RequestInit {
    /// Renders the request as curl arguments, provided its URL parses;
    /// an unparsable URL is refused, named.
    #[verifier::loop_isolation(false)]
    pub fn to_curl_args(&self) -> (r: Result<Vec<String>, FormatError>)
        ensures
            match r {
                Result::Ok(args) => url_parse_ok(url_text(*self)) && crate::schema::strs_view(
                    args@,
                ) == curl_args_text(*self),
                Result::Err(e) => !url_parse_ok(url_text(*self)) && (
                e matches FormatError::InvalidUrl(u) && u@ == url_text(*self)),
            },
    {
        let url = self.render_url();
        if !url_parses(url.as_str()) {
            return Result::Err(FormatError::InvalidUrl(url));
        }
        let ghost goal = curl_args_text(*self);
        let mut args: Vec<String> = Vec::new();
        let mut a0: Vec<char> = Vec::new();
        push_str_chars(&mut a0, "-X ");
        let m = string_to_chars(self.method.as_str());
        push_all(&mut a0, &m);
        assert(a0@ =~= "-X "@ + self.method@);
        args.push(chars_to_string(&a0));
        let mut a1: Vec<char> = Vec::new();
        a1.push('\'');
        let u = string_to_chars(url.as_str());
        push_all(&mut a1, &u);
        a1.push('\'');
        assert(a1@ =~= seq!['\''] + url_text(*self) + seq!['\'']);
        args.push(chars_to_string(&a1));
        proof {
            crate::schema::lemma_strs_view(args@);
            assert(crate::schema::strs_view(args@) =~= seq![
                "-X "@ + self.method@,
                seq!['\''] + url_text(*self) + seq!['\''],
            ]);
        }
        let ghost head = crate::schema::strs_view(args@);
        let mut i: usize = 0;
        while i < self.header.len()
            invariant
                0 <= i <= self.header@.len(),
                crate::schema::strs_view(args@) == head + header_args_text(
                    self.header@,
                    i as int,
                ),
            decreases self.header@.len() - i,
        {
            let mut h: Vec<char> = Vec::new();
            push_str_chars(&mut h, "-H '");
            let n = string_to_chars(self.header[i].0.as_str());
            push_all(&mut h, &n);
            push_str_chars(&mut h, ": ");
            let t = to_text(&self.header[i].1);
            push_all(&mut h, &t);
            h.push('\'');
            assert(h@ =~= header_arg(self.header@[i as int].0@, self.header@[i as int].1@));
            let ghost pre = args@;
            args.push(chars_to_string(&h));
            i = i + 1;
            proof {
                assert(args@.drop_last() =~= pre);
                assert(crate::schema::strs_view(args@) == crate::schema::strs_view(pre).push(
                    args@.last()@,
                ));
                assert(crate::schema::strs_view(args@) =~= head + header_args_text(
                    self.header@,
                    i as int,
                ));
            }
        }
        match &self.body {
            Option::Some(b) => {
                let mut d: Vec<char> = Vec::new();
                push_str_chars(&mut d, "-d '");
                let j = to_json(b);
                push_all(&mut d, &j);
                d.push('\'');
                assert(d@ =~= "-d '"@ + json_of(b@) + seq!['\'']);
                let ghost pre = args@;
                args.push(chars_to_string(&d));
                proof {
                    assert(args@.drop_last() =~= pre);
                    assert(crate::schema::strs_view(args@) == crate::schema::strs_view(pre).push(
                        args@.last()@,
                    ));
                    assert(crate::schema::strs_view(args@) =~= goal);
                }
            },
            Option::None => {
                proof {
                    assert(crate::schema::strs_view(args@) =~= goal);
                }
            },
        }
        Result::Ok(args)
    }
}

/// Renders a request as one curl command line: the arguments joined with
/// single spaces.
#[verifier::loop_isolation(false)]
pub fn curl_format(req: &RequestInit) -> (r: Result<String, FormatError>)
    ensures
        match r {
            Result::Ok(s) => url_parse_ok(url_text(*req)) && s@ == join_char(
                curl_args_text(*req),
                ' ',
                curl_args_text(*req).len() as int,
            ),
            Result::Err(e) => !url_parse_ok(url_text(*req)) && (
            e matches FormatError::InvalidUrl(u) && u@ == url_text(*req)),
        },
{
    let args = match req.to_curl_args() {
        Result::Ok(a) => a,
        Result::Err(e) => {
            return Result::Err(e);
        },
    };
    proof {
        crate::schema::lemma_strs_view(args@);
    }
    let ghost pieces = crate::schema::strs_view(args@);
    let mut out: Vec<char> = Vec::new();
    let mut i: usize = 0;
    while i < args.len()
        invariant
            0 <= i <= args@.len(),
            pieces == crate::schema::strs_view(args@),
            pieces.len() == args@.len(),
            forall|j: int| 0 <= j < args@.len() ==> pieces[j] == args@[j]@,
            out@ == join_char(pieces, ' ', i as int),
        decreases args@.len() - i,
    {
        if i > 0 {
            out.push(' ');
        }
        let p = string_to_chars(args[i].as_str());
        push_all(&mut out, &p);
        i = i + 1;
        assert(out@ =~= join_char(pieces, ' ', i as int));
    }
    Result::Ok(chars_to_string(&out))
}

/// One header line of a fetch headers object: `'name': 'value'`.
pub open spec fn fetch_header_entry(name: Seq<char>, v: crate::value::ValSpec) -> Seq<char> {
    seq!['\''] + name + "': '"@ + text_of(v) + seq!['\'']
}

/// The header entries of the first `i` headers.
pub open spec fn fetch_header_entries(headers: Seq<(String, crate::value::Val)>, i: int) -> Seq<
    Seq<char>,
>
    decreases i,
{
    if i <= 0 {
        Seq::<Seq<char>>::empty()
    } else if i > headers.len() {
        fetch_header_entries(headers, headers.len() as int)
    } else {
        fetch_header_entries(headers, i - 1).push(
            fetch_header_entry(headers[i - 1].0@, headers[i - 1].1@),
        )
    }
}

/// The fetch-style call template of a request: the URL, the uppercased
/// method, an optional headers object literal, and an optional body
/// literal.
pub open spec fn fetch_text(r: RequestInit) -> Seq<char> {
    let headers_part = if r.header@.len() == 0 {
        Seq::<char>::empty()
    } else {
        let entries = fetch_header_entries(r.header@, r.header@.len() as int);
        "\n    headers: {"@ + join_char(entries, ',', entries.len() as int) + "},"@
    };
    let body_part = match r.body {
        Option::Some(b) => "\n    body: '"@ + json_of(b@) + seq!['\''],
        Option::None => Seq::<char>::empty(),
    };
    "fetch('"@ + url_text(r) + "', {\n    method: '"@ + upper_text(
        r.method@,
        r.method@.len() as int,
    ) + "',"@ + headers_part + body_part + "\n})\n"@
}

/// Renders a request as a fetch-style call template.
#[verifier::loop_isolation(false)]
pub fn fetch_format(req: &RequestInit) -> (r: Result<String, FormatError>)
    ensures
        match r {
            Result::Ok(s) => url_parse_ok(url_text(*req)) && s@ == fetch_text(*req),
            Result::Err(e) => !url_parse_ok(url_text(*req)) && (
            e matches FormatError::InvalidUrl(u) && u@ == url_text(*req)),
        },
{
    let url = req.render_url();
    if !url_parses(url.as_str()) {
        return Result::Err(FormatError::InvalidUrl(url));
    }
    let mut out: Vec<char> = Vec::new();
    push_str_chars(&mut out, "fetch('");
    let u = string_to_chars(url.as_str());
    push_all(&mut out, &u);
    push_str_chars(&mut out, "', {\n    method: '");
    let m = to_upper(&req.method);
    push_all(&mut out, &m);
    push_str_chars(&mut out, "',");
    if req.header.len() > 0 {
        push_str_chars(&mut out, "\n    headers: {");
        let ghost entries = fetch_header_entries(req.header@, req.header@.len() as int);
        let mut hs: Vec<char> = Vec::new();
        let mut i: usize = 0;
        while i < req.header.len()
            invariant
                0 <= i <= req.header@.len(),
                hs@ == join_char(
                    fetch_header_entries(req.header@, i as int),
                    ',',
                    fetch_header_entries(req.header@, i as int).len() as int,
                ),
            decreases req.header@.len() - i,
        {
            let ghost prev = fetch_header_entries(req.header@, i as int);
            if i > 0 {
                hs.push(',');
            }
            let mut h: Vec<char> = Vec::new();
            h.push('\'');
            let n = string_to_chars(req.header[i].0.as_str());
            push_all(&mut h, &n);
            push_str_chars(&mut h, "': '");
            let t = to_text(&req.header[i].1);
            push_all(&mut h, &t);
            h.push('\'');
            assert(h@ =~= fetch_header_entry(
                req.header@[i as int].0@,
                req.header@[i as int].1@,
            ));
            push_all(&mut hs, &h);
            i = i + 1;
            proof {
                let cur = fetch_header_entries(req.header@, i as int);
                assert(cur == prev.push(h@));
                lemma_join_char_push(prev, ',', h@, prev.len() as int);
                assert(cur.last() == h@);
                assert(cur.drop_last() =~= prev);
                assert(hs@ =~= join_char(cur, ',', cur.len() as int));
            }
        }
        push_all(&mut out, &hs);
        push_str_chars(&mut out, "},");
    }
    match &req.body {
        Option::Some(b) => {
            push_str_chars(&mut out, "\n    body: '");
            let j = to_json(b);
            push_all(&mut out, &j);
            out.push('\'');
        },
        Option::None => {},
    }
    push_str_chars(&mut out, "\n})\n");
    assert(out@ =~= fetch_text(*req));
    Result::Ok(chars_to_string(&out))
}

/// Renders a request in the given format.
pub fn format_request(f: Formatter, req: &RequestInit) -> (r: Result<String, FormatError>)
    ensures
        match r {
            Result::Ok(s) => url_parse_ok(url_text(*req)) && (match f {
                Formatter::Curl => s@ == join_char(
                    curl_args_text(*req),
                    ' ',
                    curl_args_text(*req).len() as int,
                ),
                Formatter::Fetch => s@ == fetch_text(*req),
            }),
            Result::Err(e) => !url_parse_ok(url_text(*req)) && (
            e matches FormatError::InvalidUrl(u) && u@ == url_text(*req)),
        },
{
    match f {
        Formatter::Curl => curl_format(req),
        Formatter::Fetch => fetch_format(req),
    }
}

} // verus!
