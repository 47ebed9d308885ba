//! Rendering: the presentation payload of a widget. Rendering never
//! changes a widget; it may be repeated freely and is expected after
//! every event.

use vstd::prelude::*;

use crate::composite::{ChoicePrompt, Skippable, Widget};
use crate::document::StrFormat;
use crate::schema::SchemaType;
use crate::text::{chars_to_string, push_all, push_str_chars, string_to_chars};
use crate::value::{json_of, to_json, Val};

verus! {

broadcast use vstd::std_specs::vec::group_vec_axioms, vstd::seq::group_seq_axioms;

/// What a widget presents: its label, an optional hint, the current input
/// representation, and auxiliary body text.
pub struct RenderPayload {
    pub message: String,
    pub hint: Option<String>,
    pub input: String,
    pub body: String,
}

/// The default presentation of an array under construction.
pub struct DefaultArrayFormatter;

impl DefaultArrayFormatter {
    /// The already-submitted items followed by the active input.
    pub fn fmt_prompt(&self, submitted: String, input: String) -> (r: String)
        ensures
            r@ == submitted@ + input@,
    {
        let mut out = string_to_chars(submitted.as_str());
        let i = string_to_chars(input.as_str());
        push_all(&mut out, &i);
        chars_to_string(&out)
    }

    /// One already-submitted item: its JSON text and a trailing comma.
    pub fn fmt_submitted_item(&self, idx: usize, value: &Val) -> (r: String)
        ensures
            r@ == json_of(value@) + ",\n"@,
    {
        let mut out = to_json(value);
        push_str_chars(&mut out, ",\n");
        chars_to_string(&out)
    }

    /// The active child's input above its body.
    pub fn fmt_input(&self, payload: &RenderPayload) -> (r: String)
        ensures
            r@ == payload.input@ + "\n"@ + payload.body@,
    {
        let mut out = string_to_chars(payload.input.as_str());
        push_str_chars(&mut out, "\n");
        let b = string_to_chars(payload.body.as_str());
        push_all(&mut out, &b);
        chars_to_string(&out)
    }

    /// The submitted items, JSON texts joined with `,\n`, closed by a
    /// newline.
    pub fn fmt_submit(&self, value: &Vec<Val>) -> (r: String) {
        let mut out: Vec<char> = Vec::new();
        let mut i: usize = 0;
        while i < value.len()
            invariant
                0 <= i <= value@.len(),
            decreases value@.len() - i,
        {
            if i > 0 {
                push_str_chars(&mut out, ",\n");
            }
            let j = to_json(&value[i]);
            push_all(&mut out, &j);
            i = i + 1;
        }
        push_str_chars(&mut out, "\n");
        chars_to_string(&out)
    }
}

/// The default presentation of an object under construction.
pub struct DefaultObjectFormatter;

impl DefaultObjectFormatter {
    /// The already-collected fields followed by the active input.
    pub fn fmt_prompt(&self, submitted: String, input: String) -> (r: String)
        ensures
            r@ == submitted@ + input@,
    {
        let mut out = string_to_chars(submitted.as_str());
        let i = string_to_chars(input.as_str());
        push_all(&mut out, &i);
        chars_to_string(&out)
    }

    /// One collected field: `name: value`, an absent one as `undefined`.
    pub fn fmt_submitted_item(&self, key: &String, value: &Option<Val>) -> (r: String)
        ensures
            match value {
                Option::Some(v) => r@ == key@ + ": "@ + json_of(v@) + "\n"@,
                Option::None => r@ == key@ + ": undefined\n"@,
            },
    {
        let mut out = string_to_chars(key.as_str());
        match value {
            Option::Some(v) => {
                push_str_chars(&mut out, ": ");
                let j = to_json(v);
                push_all(&mut out, &j);
                push_str_chars(&mut out, "\n");
            },
            Option::None => {
                push_str_chars(&mut out, ": undefined\n");
            },
        }
        chars_to_string(&out)
    }

    /// The active property's line: its name, a question mark when the
    /// property is optional, the child's input, then the child's body.
    pub fn fmt_input(&self, key: &String, payload: &RenderPayload, is_required: bool) -> (r:
        String)
        ensures
            is_required ==> r@ == key@ + ": "@ + payload.input@ + "\n"@ + payload.body@,
            !is_required ==> r@ == key@ + "?: "@ + payload.input@ + "\n"@ + payload.body@,
    {
        let mut out = string_to_chars(key.as_str());
        if !is_required {
            push_str_chars(&mut out, "?: ");
        } else {
            push_str_chars(&mut out, ": ");
        }
        let i = string_to_chars(payload.input.as_str());
        push_all(&mut out, &i);
        push_str_chars(&mut out, "\n");
        let b = string_to_chars(payload.body.as_str());
        push_all(&mut out, &b);
        assert(is_required ==> out@ =~= key@ + ": "@ + payload.input@ + "\n"@ + payload.body@);
        assert(!is_required ==> out@ =~= key@ + "?: "@ + payload.input@ + "\n"@ + payload.body@);
        chars_to_string(&out)
    }

    /// The collected fields, one `name: value` line each.
    pub fn fmt_submit(&self, value: &Vec<(String, Val)>) -> (r: String) {
        let mut out: Vec<char> = Vec::new();
        let mut i: usize = 0;
        while i < value.len()
            invariant
                0 <= i <= value@.len(),
            decreases value@.len() - i,
        {
            if i > 0 {
                push_str_chars(&mut out, "\n");
            }
            let n = string_to_chars(value[i].0.as_str());
            push_all(&mut out, &n);
            push_str_chars(&mut out, ": ");
            let j = to_json(&value[i].1);
            push_all(&mut out, &j);
            i = i + 1;
        }
        push_str_chars(&mut out, "\n");
        chars_to_string(&out)
    }
}

/// A one-word tag naming a normalized node's kind, used to label the
/// alternatives of a choice.
pub fn type_label(node: &SchemaType) -> (r: String)
    ensures
        match node@ {
            crate::schema::NormSpec::String(_) => r@ == "String"@,
            crate::schema::NormSpec::Number(_) => r@ == "Number"@,
            crate::schema::NormSpec::Integer(_) => r@ == "Integer"@,
            crate::schema::NormSpec::Boolean => r@ == "Boolean"@,
            crate::schema::NormSpec::Array { .. } => r@ == "Array"@,
            crate::schema::NormSpec::Object(_) => r@ == "Object"@,
            crate::schema::NormSpec::Choice(_) => r@ == "Choice"@,
        },
{
    let mut out: Vec<char> = Vec::new();
    match node {
        SchemaType::String(_) => push_str_chars(&mut out, "String"),
        SchemaType::Number(_) => push_str_chars(&mut out, "Number"),
        SchemaType::Integer(_) => push_str_chars(&mut out, "Integer"),
        SchemaType::Boolean => push_str_chars(&mut out, "Boolean"),
        SchemaType::Array(_) => push_str_chars(&mut out, "Array"),
        SchemaType::Object(_) => push_str_chars(&mut out, "Object"),
        SchemaType::Choice(_) => push_str_chars(&mut out, "Choice"),
    }
    chars_to_string(&out)
}

/// A run of mask characters of the given length.
pub open spec fn mask_text(len: nat) -> Seq<char> {
    Seq::<char>::new(len, |i: int| '#')
}

/// The masked form of a password input: one mask character per typed
/// character.
fn masked(len: usize) -> (r: Vec<char>)
    ensures
        r@ == mask_text(len as nat),
{
    let mut out: Vec<char> = Vec::new();
    let mut i: usize = 0;
    while i < len
        invariant
            0 <= i <= len,
            out@ == mask_text(i as nat),
        decreases len - i,
    {
        out.push('#');
        i = i + 1;
        assert(out@ =~= mask_text(i as nat));
    }
    out
}

/// Renders a widget without changing it. The label is the widget's own
/// message and the input its current value: the typed buffer (masked,
/// one mask character per typed character, for a password), the selected
/// answer, or the held date; composites splice their child's payload into
/// their body, and a choice with an alternative picked renders as that
/// alternative's widget.
pub fn render(w: &Widget) -> (r: RenderPayload)
    requires
        crate::composite::wf_widget(*w),
    ensures
        match *w {
            Widget::Bool(b) => r.message == b.message && r.hint == b.description && (b.value
                ==> r.input@ == "y"@) && (!b.value ==> r.input@ == "n"@),
            Widget::Text(t) => r.message == t.message && r.hint == t.hint && (t.facets.format
                == StrFormat::Password ==> r.input@ == mask_text(t.buf.chars@.len())) && (
            t.facets.format != StrFormat::Password ==> r.input@ == t.buf.chars@),
            Widget::Num(n) => r.message == n.message && r.hint == n.hint && r.input@
                == n.buf.chars@,
            Widget::Sel(s) => r.message == s.message && r.input@ == s.input.chars@,
            Widget::DateSel(d) => r.message == d.message && r.hint == d.hint && r.input@
                == crate::prompts::date_text(d.year as int, d.month as int, d.day as int),
            Widget::Arr(a) => r.message == a.message,
            Widget::ObjW(o) => r.message == o.message,
            Widget::Alt(c) => c.inner is None ==> r.message == c.message && r.hint == c.hint,
        },
    decreases w,
{
    match w {
        Widget::Bool(b) => {
            let mut input: Vec<char> = Vec::new();
            if b.value {
                push_str_chars(&mut input, "y");
            } else {
                push_str_chars(&mut input, "n");
            }
            RenderPayload {
                message: b.message.clone(),
                hint: crate::schema::clone_opt_string(&b.description),
                input: chars_to_string(&input),
                body: String::new(),
            }
        },
        Widget::Text(t) => {
            let shown: Vec<char> = if matches!(t.facets.format, StrFormat::Password) {
                masked(t.buf.chars.len())
            } else {
                let mut c: Vec<char> = Vec::new();
                push_all(&mut c, &t.buf.chars);
                c
            };
            RenderPayload {
                message: t.message.clone(),
                hint: crate::schema::clone_opt_string(&t.hint),
                input: chars_to_string(&shown),
                body: String::new(),
            }
        },
        Widget::Num(n) => {
            RenderPayload {
                message: n.message.clone(),
                hint: crate::schema::clone_opt_string(&n.hint),
                input: chars_to_string(&n.buf.chars),
                body: String::new(),
            }
        },
        Widget::Sel(s) => {
            let mut body: Vec<char> = Vec::new();
            if s.filtered.len() == 0 {
                push_str_chars(&mut body, "<No matches found>");
            } else {
                let mut i: usize = 0;
                while i < s.filtered.len()
                    invariant
                        0 <= i <= s.filtered@.len(),
                        forall|j: int|
                            0 <= j < s.filtered@.len() ==> s.filtered@[j] < s.options@.len(),
                    decreases s.filtered@.len() - i,
                {
                    if i > 0 {
                        push_str_chars(&mut body, "\n");
                    }
                    if i == s.index {
                        push_str_chars(&mut body, "> ");
                    } else {
                        push_str_chars(&mut body, "  ");
                    }
                    let idx = s.filtered[i];
                    let label = string_to_chars(s.options[idx].label.as_str());
                    push_all(&mut body, &label);
                    i = i + 1;
                }
            }
            RenderPayload {
                message: s.message.clone(),
                hint: Option::None,
                input: chars_to_string(&s.input.chars),
                body: chars_to_string(&body),
            }
        },
        Widget::DateSel(d) => {
            let iso = d.submit();
            let input = match iso {
                Val::Str(s) => s,
                _ => String::new(),
            };
            RenderPayload {
                message: d.message.clone(),
                hint: crate::schema::clone_opt_string(&d.hint),
                input,
                body: String::new(),
            }
        },
        Widget::Arr(a) => {
            let fmt = DefaultArrayFormatter;
            let mut submitted: Vec<char> = Vec::new();
            let mut i: usize = 0;
            while i < a.values.len()
                invariant
                    0 <= i <= a.values@.len(),
                decreases a.values@.len() - i,
            {
                let line = fmt.fmt_submitted_item(i, &a.values[i]);
                let lc = string_to_chars(line.as_str());
                push_all(&mut submitted, &lc);
                i = i + 1;
            }
            let input: String = match &a.child {
                Option::Some(b) => {
                    proof {
                        assert(decreases_to!(*w => *a));
                        assert(decreases_to!(*a => a.child));
                        assert(decreases_to!(a.child => *b));
                    }
                    let child_payload = render(&**b);
                    fmt.fmt_input(&child_payload)
                },
                Option::None => String::new(),
            };
            let body = fmt.fmt_prompt(chars_to_string(&submitted), input);
            RenderPayload {
                message: a.message.clone(),
                hint: Option::None,
                input: String::new(),
                body,
            }
        },
        Widget::ObjW(o) => {
            let fmt = DefaultObjectFormatter;
            let mut submitted: Vec<char> = Vec::new();
            let mut i: usize = 0;
            while i < o.collected.len()
                invariant
                    0 <= i <= o.collected@.len(),
                decreases o.collected@.len() - i,
            {
                let line = fmt.fmt_submitted_item(&o.collected[i].0, &o.collected[i].1);
                let lc = string_to_chars(line.as_str());
                push_all(&mut submitted, &lc);
                i = i + 1;
            }
            let input: String = match &o.current {
                Option::Some(c) => {
                    proof {
                        assert(decreases_to!(*w => *o));
                        assert(decreases_to!(*o => o.current));
                        assert(decreases_to!(o.current => *c));
                        assert(decreases_to!(*c => c.2));
                    }
                    let child_payload = render(&*c.2);
                    fmt.fmt_input(&c.0, &child_payload, c.1)
                },
                Option::None => String::new(),
            };
            let body = fmt.fmt_prompt(chars_to_string(&submitted), input);
            RenderPayload {
                message: o.message.clone(),
                hint: Option::None,
                input: String::new(),
                body,
            }
        },
        Widget::Alt(c) => {
            match &c.inner {
                Option::Some(b) => {
                    proof {
                        assert(decreases_to!(*w => *c));
                        assert(decreases_to!(*c => c.inner));
                        assert(decreases_to!(c.inner => *b));
                    }
                    render(&**b)
                },
                Option::None => {
                    let mut body: Vec<char> = Vec::new();
                    let mut i: usize = 0;
                    while i < c.alts.len()
                        invariant
                            0 <= i <= c.alts@.len(),
                        decreases c.alts@.len() - i,
                    {
                        if i > 0 {
                            push_str_chars(&mut body, "\n");
                        }
                        if i == c.index {
                            push_str_chars(&mut body, "> ");
                        } else {
                            push_str_chars(&mut body, "  ");
                        }
                        let label = type_label(&c.alts[i]);
                        let lc = string_to_chars(label.as_str());
                        push_all(&mut body, &lc);
                        i = i + 1;
                    }
                    RenderPayload {
                        message: c.message.clone(),
                        hint: crate::schema::clone_opt_string(&c.hint),
                        input: String::new(),
                        body: chars_to_string(&body),
                    }
                },
            }
        },
    }
}

/// Renders a skippable field: the wrapper only adds the skip advice to
/// the hint, or shows the skip once taken.
pub fn render_skippable(s: &Skippable) -> (r: RenderPayload)
    requires
        crate::composite::wf_widget(s.inner),
{
    let inner = render(&s.inner);
    if s.skip {
        let mut input: Vec<char> = Vec::new();
        push_str_chars(&mut input, "Skipped");
        RenderPayload {
            message: inner.message,
            hint: inner.hint,
            input: chars_to_string(&input),
            body: inner.body,
        }
    } else {
        let mut hint: Vec<char> = Vec::new();
        match &inner.hint {
            Option::Some(h) => {
                let hc = string_to_chars(h.as_str());
                push_all(&mut hint, &hc);
                push_str_chars(&mut hint, ", <Esc> to skip");
            },
            Option::None => {
                push_str_chars(&mut hint, "<Esc> to skip");
            },
        }
        RenderPayload {
            message: inner.message,
            hint: Option::Some(chars_to_string(&hint)),
            input: inner.input,
            body: inner.body,
        }
    }
}

} // verus!
