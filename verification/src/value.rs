//! The dynamically-typed value a widget collects: null, boolean, integer,
//! string, array or object. Objects keep their fields in declaration order.

use vstd::prelude::*;

use crate::text::{chars_to_string, int_text, push_all, push_str_chars};

verus! {

broadcast use vstd::std_specs::vec::group_vec_axioms, vstd::seq::group_seq_axioms;

/// A collected value.
#[derive(Debug, PartialEq, Eq)]
pub enum Val {
    Null,
    Bool(bool),
    Int(i64),
    Str(String),
    List(Vec<Val>),
    Obj(Vec<(String, Val)>),
}

/// The mathematical shape of a `Val`: the same tree over `int`, `Seq<char>`
/// and `Seq`.
pub enum ValSpec {
    Null,
    Bool(bool),
    Int(int),
    Str(Seq<char>),
    List(Seq<ValSpec>),
    Obj(Seq<(Seq<char>, ValSpec)>),
}

/// The views of the elements of a sequence of values.
pub open spec fn vals_view(l: Seq<Val>) -> Seq<ValSpec>
    decreases l,
{
    if l.len() == 0 {
        Seq::<ValSpec>::empty()
    } else {
        vals_view(l.drop_last()).push(l.last()@)
    }
}

/// The views of the fields of a sequence of named values.
pub open spec fn fields_view(m: Seq<(String, Val)>) -> Seq<(Seq<char>, ValSpec)>
    decreases m,
{
    if m.len() == 0 {
        Seq::<(Seq<char>, ValSpec)>::empty()
    } else {
        fields_view(m.drop_last()).push((m.last().0@, m.last().1@))
    }
}

impl View for Val {
    type V = ValSpec;

    open spec fn view(&self) -> ValSpec
        decreases self,
    {
        match self {
            Val::Null => ValSpec::Null,
            Val::Bool(b) => ValSpec::Bool(*b),
            Val::Int(i) => ValSpec::Int(*i as int),
            Val::Str(s) => ValSpec::Str(s@),
            Val::List(l) => ValSpec::List(vals_view(l@)),
            Val::Obj(m) => ValSpec::Obj(fields_view(m@)),
        }
    }
}

/// `vals_view` maps the sequence element by element.
pub proof fn lemma_vals_view(l: Seq<Val>)
    ensures
        vals_view(l).len() == l.len(),
        forall|i: int| 0 <= i < l.len() ==> vals_view(l)[i] == l[i]@,
    decreases l.len(),
{
    if l.len() > 0 {
        lemma_vals_view(l.drop_last());
        assert(vals_view(l) == vals_view(l.drop_last()).push(l.last()@));
        assert(l.drop_last().len() == l.len() - 1);
        assert(vals_view(l).len() == l.len());
        assert forall|i: int| 0 <= i < l.len() implies vals_view(l)[i] == l[i]@ by {
            if i < l.len() - 1 {
                assert(l.drop_last()[i] == l[i]);
                assert(vals_view(l)[i] == vals_view(l.drop_last())[i]);
            } else {
                assert(vals_view(l)[i] == l.last()@);
            }
        }
    }
}

/// `fields_view` maps the sequence field by field.
pub proof fn lemma_fields_view(m: Seq<(String, Val)>)
    ensures
        fields_view(m).len() == m.len(),
        forall|i: int|
            0 <= i < m.len() ==> fields_view(m)[i] == (m[i].0@, m[i].1@),
    decreases m.len(),
{
    if m.len() > 0 {
        lemma_fields_view(m.drop_last());
        assert(fields_view(m) == fields_view(m.drop_last()).push((m.last().0@, m.last().1@)));
        assert(m.drop_last().len() == m.len() - 1);
        assert(fields_view(m).len() == m.len());
        assert forall|i: int|
            0 <= i < m.len() implies fields_view(m)[i] == (m[i].0@, m[i].1@) by {
            if i < m.len() - 1 {
                assert(m.drop_last()[i] == m[i]);
                assert(fields_view(m)[i] == fields_view(m.drop_last())[i]);
            } else {
                assert(fields_view(m)[i] == (m.last().0@, m.last().1@));
            }
        }
    }
}

impl Val {
    pub fn is_string(&self) -> (r: bool)
        ensures
            r == self@ is Str,
    {
        matches!(self, Val::Str(_))
    }

    pub fn is_integer(&self) -> (r: bool)
        ensures
            r == self@ is Int,
    {
        matches!(self, Val::Int(_))
    }

    pub fn is_boolean(&self) -> (r: bool)
        ensures
            r == self@ is Bool,
    {
        matches!(self, Val::Bool(_))
    }
}

/// Whether two values are equal, field for field and element for element.
#[verifier::loop_isolation(false)]
pub fn val_eq(a: &Val, b: &Val) -> (r: bool)
    ensures
        r == (a@ == b@),
    decreases a,
{
    match (a, b) {
        (Val::Null, Val::Null) => true,
        (Val::Bool(x), Val::Bool(y)) => x == y,
        (Val::Int(x), Val::Int(y)) => x == y,
        (Val::Str(x), Val::Str(y)) => x.eq(y),
        (Val::List(x), Val::List(y)) => {
            proof {
                lemma_vals_view(x@);
                lemma_vals_view(y@);
            }
            if x.len() != y.len() {
                return false;
            }
            let mut k: usize = 0;
            while k < x.len()
                invariant
                    0 <= k <= x.len(),
                    x@.len() == y@.len(),
                    a@ == ValSpec::List(vals_view(x@)),
                    b@ == ValSpec::List(vals_view(y@)),
                    vals_view(x@).len() == x@.len(),
                    vals_view(y@).len() == y@.len(),
                    forall|i: int| 0 <= i < x@.len() ==> vals_view(x@)[i] == x@[i]@,
                    forall|i: int| 0 <= i < y@.len() ==> vals_view(y@)[i] == y@[i]@,
                    forall|j: int| 0 <= j < k ==> x@[j]@ == y@[j]@,
                decreases x.len() - k,
            {
                proof {
                    assert(*a == Val::List(*x));
                    assert(decreases_to!(*a => *x));
                    assert(decreases_to!(*x => x[k as int]));
                    assert(decreases_to!(*a => x[k as int]));
                }
                if !val_eq(&x[k], &y[k]) {
                    assert(vals_view(x@)[k as int] != vals_view(y@)[k as int]);
                    return false;
                }
                k = k + 1;
            }
            assert(vals_view(x@) =~= vals_view(y@));
            true
        },
        (Val::Obj(x), Val::Obj(y)) => {
            proof {
                lemma_fields_view(x@);
                lemma_fields_view(y@);
            }
            if x.len() != y.len() {
                return false;
            }
            let mut k: usize = 0;
            while k < x.len()
                invariant
                    0 <= k <= x.len(),
                    x@.len() == y@.len(),
                    a@ == ValSpec::Obj(fields_view(x@)),
                    b@ == ValSpec::Obj(fields_view(y@)),
                    fields_view(x@).len() == x@.len(),
                    fields_view(y@).len() == y@.len(),
                    forall|i: int|
                        0 <= i < x@.len() ==> fields_view(x@)[i] == (x@[i].0@, x@[i].1@),
                    forall|i: int|
                        0 <= i < y@.len() ==> fields_view(y@)[i] == (y@[i].0@, y@[i].1@),
                    forall|j: int| 0 <= j < k ==> x@[j].0@ == y@[j].0@ && x@[j].1@ == y@[j].1@,
                decreases x.len() - k,
            {
                proof {
                    assert(*a == Val::Obj(*x));
                    assert(decreases_to!(*a => *x));
                    assert(decreases_to!(*x => x[k as int]));
                    assert(decreases_to!(*a => x[k as int].1));
                }
                if !x[k].0.eq(&y[k].0) {
                    assert(fields_view(x@)[k as int] != fields_view(y@)[k as int]);
                    return false;
                }
                if !val_eq(&x[k].1, &y[k].1) {
                    assert(fields_view(x@)[k as int] != fields_view(y@)[k as int]);
                    return false;
                }
                k = k + 1;
            }
            assert(fields_view(x@) =~= fields_view(y@));
            true
        },
        _ => {
            false
        },
    }
}

/// The plain textual form of a value, as it is substituted into a path or a
/// query: booleans and integers in their usual spelling, strings verbatim,
/// arrays joined with commas, null and objects empty.
pub open spec fn text_of(v: ValSpec) -> Seq<char>
    decreases v, 0int,
{
    match v {
        ValSpec::Null => Seq::<char>::empty(),
        ValSpec::Bool(b) => if b {
            "true"@
        } else {
            "false"@
        },
        ValSpec::Int(i) => int_text(i),
        ValSpec::Str(s) => s,
        ValSpec::List(l) => list_text(l, l.len() as int),
        ValSpec::Obj(_) => Seq::<char>::empty(),
    }
}

/// The first `i` elements of `l`, each in its textual form, joined with
/// commas.
pub open spec fn list_text(l: Seq<ValSpec>, i: int) -> Seq<char>
    decreases l, i,
{
    if i <= 0 {
        Seq::<char>::empty()
    } else if i > l.len() {
        list_text(l, l.len() as int)
    } else if i == 1 {
        text_of(l[0])
    } else {
        list_text(l, i - 1) + seq![','] + text_of(l[i - 1])
    }
}

/// Renders a value in its plain textual form.
#[verifier::loop_isolation(false)]
pub fn to_text(v: &Val) -> (r: Vec<char>)
    ensures
        r@ == text_of(v@),
    decreases v,
{
    match v {
        Val::Null => Vec::new(),
        Val::Bool(b) => {
            let mut out: Vec<char> = Vec::new();
            if *b {
                push_str_chars(&mut out, "true");
            } else {
                push_str_chars(&mut out, "false");
            }
            out
        },
        Val::Int(i) => crate::text::i64_digits(*i),
        Val::Str(s) => crate::text::string_to_chars(s.as_str()),
        Val::List(l) => {
            proof {
                lemma_vals_view(l@);
            }
            let ghost ls = vals_view(l@);
            let mut out: Vec<char> = Vec::new();
            let mut k: usize = 0;
            while k < l.len()
                invariant
                    0 <= k <= l.len(),
                    ls == vals_view(l@),
                    ls.len() == l@.len(),
                    forall|i: int| 0 <= i < l@.len() ==> ls[i] == l@[i]@,
                    out@ == list_text(ls, k as int),
                decreases l.len() - k,
            {
                if k > 0 {
                    out.push(',');
                }
                proof {
                    assert(*v == Val::List(*l));
                    assert(decreases_to!(*v => *l));
                    assert(decreases_to!(*l => l[k as int]));
                    assert(decreases_to!(*v => l[k as int]));
                }
                let piece = to_text(&l[k]);
                push_all(&mut out, &piece);
                k = k + 1;
                assert(out@ =~= list_text(ls, k as int));
            }
            assert(text_of(v@) == list_text(ls, l@.len() as int));
            out
        },
        Val::Obj(_) => Vec::new(),
    }
}

/// Renders a value in its plain textual form, as a `String`.
pub fn to_text_string(v: &Val) -> (r: String)
    ensures
        r@ == text_of(v@),
{
    let chars = to_text(v);
    chars_to_string(&chars)
}

/// A lowercase hexadecimal digit.
pub open spec fn hex_digit(d: int) -> char {
    if d == 0 {
        '0'
    } else if d == 1 {
        '1'
    } else if d == 2 {
        '2'
    } else if d == 3 {
        '3'
    } else if d == 4 {
        '4'
    } else if d == 5 {
        '5'
    } else if d == 6 {
        '6'
    } else if d == 7 {
        '7'
    } else if d == 8 {
        '8'
    } else if d == 9 {
        '9'
    } else if d == 10 {
        'a'
    } else if d == 11 {
        'b'
    } else if d == 12 {
        'c'
    } else if d == 13 {
        'd'
    } else if d == 14 {
        'e'
    } else {
        'f'
    }
}

/// The JSON escape of one character: quote and backslash escaped, the
/// control characters with a short letter escape by their letter, every
/// other control character as `\u00..`, and everything else itself.
pub open spec fn esc_char(c: char) -> Seq<char> {
    if c == '"' {
        seq!['\\', '"']
    } else if c == '\\' {
        seq!['\\', '\\']
    } else if c == '\u{8}' {
        seq!['\\', 'b']
    } else if c == '\t' {
        seq!['\\', 't']
    } else if c == '\n' {
        seq!['\\', 'n']
    } else if c == '\u{c}' {
        seq!['\\', 'f']
    } else if c == '\r' {
        seq!['\\', 'r']
    } else if (c as int) < 32 {
        seq!['\\', 'u', '0', '0', hex_digit(c as int / 16), hex_digit(c as int % 16)]
    } else {
        seq![c]
    }
}

fn hex_digit_exec(d: u32) -> (r: char)
    requires
        d < 16,
    ensures
        r == hex_digit(d as int),
{
    if d == 0 {
        '0'
    } else if d == 1 {
        '1'
    } else if d == 2 {
        '2'
    } else if d == 3 {
        '3'
    } else if d == 4 {
        '4'
    } else if d == 5 {
        '5'
    } else if d == 6 {
        '6'
    } else if d == 7 {
        '7'
    } else if d == 8 {
        '8'
    } else if d == 9 {
        '9'
    } else if d == 10 {
        'a'
    } else if d == 11 {
        'b'
    } else if d == 12 {
        'c'
    } else if d == 13 {
        'd'
    } else if d == 14 {
        'e'
    } else {
        'f'
    }
}

/// The JSON escape of the first `i` characters of `s`.
pub open spec fn esc_text(s: Seq<char>, i: int) -> Seq<char>
    decreases i,
{
    if i <= 0 {
        Seq::<char>::empty()
    } else if i > s.len() {
        esc_text(s, s.len() as int)
    } else {
        esc_text(s, i - 1) + esc_char(s[i - 1])
    }
}

/// The JSON rendering of a value, in the compact form: no spaces, object
/// fields in their stored order.
pub open spec fn json_of(v: ValSpec) -> Seq<char>
    decreases v, 1int, 0int,
{
    match v {
        ValSpec::Null => "null"@,
        ValSpec::Bool(b) => if b {
            "true"@
        } else {
            "false"@
        },
        ValSpec::Int(i) => int_text(i),
        ValSpec::Str(s) => seq!['"'] + esc_text(s, s.len() as int) + seq!['"'],
        ValSpec::List(l) => seq!['['] + json_list(l, l.len() as int) + seq![']'],
        ValSpec::Obj(m) => seq!['{'] + json_fields(m, m.len() as int) + seq!['}'],
    }
}

/// The first `i` elements, JSON-rendered and joined with commas.
pub open spec fn json_list(l: Seq<ValSpec>, i: int) -> Seq<char>
    decreases l, 0int, i,
{
    if i <= 0 {
        Seq::<char>::empty()
    } else if i > l.len() {
        json_list(l, l.len() as int)
    } else if i == 1 {
        json_of(l[0])
    } else {
        json_list(l, i - 1) + seq![','] + json_of(l[i - 1])
    }
}

/// The first `i` fields, each rendered `"name":value` and joined with
/// commas.
pub open spec fn json_fields(m: Seq<(Seq<char>, ValSpec)>, i: int) -> Seq<char>
    decreases m, 0int, i,
{
    if i <= 0 {
        Seq::<char>::empty()
    } else if i > m.len() {
        json_fields(m, m.len() as int)
    } else {
        let entry = seq!['"'] + esc_text(m[i - 1].0, m[i - 1].0.len() as int) + seq!['"', ':']
            + json_of(m[i - 1].1);
        if i == 1 {
            entry
        } else {
            json_fields(m, i - 1) + seq![','] + entry
        }
    }
}

fn esc_char_exec(out: &mut Vec<char>, c: char)
    ensures
        final(out)@ == old(out)@ + esc_char(c),
{
    if c == '"' {
        out.push('\\');
        out.push('"');
    } else if c == '\\' {
        out.push('\\');
        out.push('\\');
    } else if c == '\u{8}' {
        out.push('\\');
        out.push('b');
    } else if c == '\t' {
        out.push('\\');
        out.push('t');
    } else if c == '\n' {
        out.push('\\');
        out.push('n');
    } else if c == '\u{c}' {
        out.push('\\');
        out.push('f');
    } else if c == '\r' {
        out.push('\\');
        out.push('r');
    } else if (c as u32) < 32 {
        out.push('\\');
        out.push('u');
        out.push('0');
        out.push('0');
        out.push(hex_digit_exec((c as u32) / 16));
        out.push(hex_digit_exec((c as u32) % 16));
    } else {
        out.push(c);
    }
    assert(final(out)@ =~= old(out)@ + esc_char(c));
}

/// Appends the JSON escape of `s` to `out`.
#[verifier::loop_isolation(false)]
fn push_escaped(out: &mut Vec<char>, s: &Vec<char>)
    ensures
        final(out)@ == old(out)@ + esc_text(s@, s@.len() as int),
{
    let mut k: usize = 0;
    while k < s.len()
        invariant
            0 <= k <= s@.len(),
            out@ == old(out)@ + esc_text(s@, k as int),
        decreases s@.len() - k,
    {
        esc_char_exec(out, s[k]);
        k = k + 1;
    }
}

/// Renders a value as compact JSON text.
#[verifier::loop_isolation(false)]
pub fn to_json(v: &Val) -> (r: Vec<char>)
    ensures
        r@ == json_of(v@),
    decreases v,
{
    match v {
        Val::Null => {
            let mut out: Vec<char> = Vec::new();
            push_str_chars(&mut out, "null");
            out
        },
        Val::Bool(b) => {
            let mut out: Vec<char> = Vec::new();
            if *b {
                push_str_chars(&mut out, "true");
            } else {
                push_str_chars(&mut out, "false");
            }
            out
        },
        Val::Int(i) => crate::text::i64_digits(*i),
        Val::Str(s) => {
            let mut out: Vec<char> = Vec::new();
            out.push('"');
            let cs = crate::text::string_to_chars(s.as_str());
            push_escaped(&mut out, &cs);
            out.push('"');
            assert(out@ =~= json_of(v@));
            out
        },
        Val::List(l) => {
            proof {
                lemma_vals_view(l@);
            }
            let ghost ls = vals_view(l@);
            let mut out: Vec<char> = Vec::new();
            out.push('[');
            let mut k: usize = 0;
            while k < l.len()
                invariant
                    0 <= k <= l@.len(),
                    ls == vals_view(l@),
                    ls.len() == l@.len(),
                    forall|i: int| 0 <= i < l@.len() ==> ls[i] == l@[i]@,
                    out@ == seq!['['] + json_list(ls, k as int),
                decreases l@.len() - k,
            {
                if k > 0 {
                    out.push(',');
                }
                proof {
                    assert(decreases_to!(*v => *l));
                    assert(decreases_to!(*l => l[k as int]));
                }
                let piece = to_json(&l[k]);
                push_all(&mut out, &piece);
                k = k + 1;
                assert(out@ =~= seq!['['] + json_list(ls, k as int));
            }
            out.push(']');
            assert(out@ =~= json_of(v@));
            out
        },
        Val::Obj(m) => {
            proof {
                lemma_fields_view(m@);
            }
            let ghost ms = fields_view(m@);
            let mut out: Vec<char> = Vec::new();
            out.push('{');
            let mut k: usize = 0;
            while k < m.len()
                invariant
                    0 <= k <= m@.len(),
                    ms == fields_view(m@),
                    ms.len() == m@.len(),
                    forall|i: int| 0 <= i < m@.len() ==> ms[i] == (m@[i].0@, m@[i].1@),
                    out@ == seq!['{'] + json_fields(ms, k as int),
                decreases m@.len() - k,
            {
                if k > 0 {
                    out.push(',');
                }
                out.push('"');
                let name = crate::text::string_to_chars(m[k].0.as_str());
                push_escaped(&mut out, &name);
                out.push('"');
                out.push(':');
                proof {
                    assert(decreases_to!(*v => *m));
                    assert(decreases_to!(*m => m[k as int]));
                    assert(decreases_to!(m[k as int] => m[k as int].1));
                }
                let piece = to_json(&m[k].1);
                push_all(&mut out, &piece);
                k = k + 1;
                assert(out@ =~= seq!['{'] + json_fields(ms, k as int));
            }
            out.push('}');
            assert(out@ =~= json_of(v@));
            out
        },
    }
}

/// Renders a value as compact JSON text, as a `String`.
pub fn to_json_string(v: &Val) -> (r: String)
    ensures
        r@ == json_of(v@),
{
    let chars = to_json(v);
    chars_to_string(&chars)
}

/// A copy of a value, equal element for element.
pub fn clone_val(v: &Val) -> (r: Val)
    ensures
        r@ == v@,
    decreases v,
{
    match v {
        Val::Null => Val::Null,
        Val::Bool(b) => Val::Bool(*b),
        Val::Int(i) => Val::Int(*i),
        Val::Str(s) => Val::Str(s.clone()),
        Val::List(l) => {
            proof {
                lemma_vals_view(l@);
            }
            let mut out: Vec<Val> = Vec::new();
            let mut k: usize = 0;
            #[verifier::loop_isolation(false)]
            while k < l.len()
                invariant
                    0 <= k <= l@.len(),
                    out@.len() == k,
                    forall|i: int| 0 <= i < k ==> out@[i]@ == l@[i]@,
                decreases l@.len() - k,
            {
                proof {
                    assert(decreases_to!(*v => *l));
                    assert(decreases_to!(*l => l[k as int]));
                }
                let c = clone_val(&l[k]);
                out.push(c);
                k = k + 1;
            }
            proof {
                lemma_vals_view(out@);
                assert(vals_view(out@) =~= vals_view(l@));
            }
            Val::List(out)
        },
        Val::Obj(m) => {
            proof {
                lemma_fields_view(m@);
            }
            let mut out: Vec<(String, Val)> = Vec::new();
            let mut k: usize = 0;
            #[verifier::loop_isolation(false)]
            while k < m.len()
                invariant
                    0 <= k <= m@.len(),
                    out@.len() == k,
                    forall|i: int|
                        0 <= i < k ==> out@[i].0@ == m@[i].0@ && out@[i].1@ == m@[i].1@,
                decreases m@.len() - k,
            {
                proof {
                    assert(decreases_to!(*v => *m));
                    assert(decreases_to!(*m => m[k as int]));
                    assert(decreases_to!(m[k as int] => m[k as int].1));
                }
                let c = clone_val(&m[k].1);
                out.push((m[k].0.clone(), c));
                k = k + 1;
            }
            proof {
                lemma_fields_view(out@);
                assert(fields_view(out@) =~= fields_view(m@));
            }
            Val::Obj(out)
        },
    }
}

} // verus!
