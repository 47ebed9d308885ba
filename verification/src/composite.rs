//! The composite widgets and the widget tree: arrays and objects own and
//! sequence child widgets; a choice widget resolves a `oneOf`/`anyOf`
//! alternative; the skippable wrapper grants "no value" as an outcome.

use vstd::prelude::*;

use crate::prompts::{
    BooleanPrompt, DatePrompt, Enumeration, Event, InputBuffer, NumberPrompt, PromptState,
    SelectOption, TextPrompt,
};
use crate::schema::{
    lemma_norms_view, lemma_props_norm_view, norms_view, opt_text, props_norm_view, NormSpec,
    SchemaType,
};
use crate::text::{chars_to_string, push_all, push_str_chars, usize_digits};
use crate::validate::{parse_int_spec, Validation};
use crate::value::{clone_val, fields_view, lemma_fields_view, lemma_vals_view, vals_view, Val,
    ValSpec};

verus! {

broadcast use vstd::std_specs::vec::group_vec_axioms, vstd::seq::group_seq_axioms;

/// An array under construction: each accepted child value is appended, and
/// a fresh child widget is compiled for the next index.
pub struct ArrayPrompt {
    pub message: String,
    pub item: Option<Box<SchemaType>>,
    pub min_items: Option<usize>,
    pub max_items: Option<usize>,
    pub unique_items: bool,
    pub values: Vec<Val>,
    pub child: Option<Box<Widget>>,
}

/// An object under construction: the not-yet-asked properties in order,
/// the active property's widget, and what has been collected, absences
/// included.
pub struct ObjectPrompt {
    pub message: String,
    pub pending: Vec<(String, SchemaType, bool, Option<String>)>,
    pub current: Option<(String, bool, Box<Widget>)>,
    pub collected: Vec<(String, Option<Val>)>,
    pub inited: bool,
}

/// A `oneOf`/`anyOf` resolution: first a selection among the normalized
/// alternatives, then the chosen alternative's own widget.
pub struct ChoicePrompt {
    pub message: String,
    pub hint: Option<String>,
    pub alts: Vec<SchemaType>,
    pub index: usize,
    pub inner: Option<Box<Widget>>,
}

/// One interactive unit of any kind.
pub enum Widget {
    Bool(BooleanPrompt),
    Text(TextPrompt),
    Num(NumberPrompt),
    Sel(Enumeration),
    DateSel(DatePrompt),
    Arr(ArrayPrompt),
    ObjW(ObjectPrompt),
    Alt(ChoicePrompt),
}

/// Structural soundness of a widget tree.
pub open spec fn wf_widget(w: Widget) -> bool
    decreases w,
{
    match w {
        Widget::Bool(_) => true,
        Widget::Text(t) => t.wf(),
        Widget::Num(n) => n.wf(),
        Widget::Sel(s) => s.wf(),
        Widget::DateSel(d) => d.wf(),
        Widget::Arr(a) => match a.child {
            Option::Some(b) => wf_widget(*b),
            Option::None => true,
        },
        Widget::ObjW(o) => match o.current {
            Option::Some(c) => wf_widget(*c.2),
            Option::None => true,
        },
        Widget::Alt(c) => {
            &&& (c.alts@.len() > 0 ==> c.index < c.alts@.len())
            &&& (c.alts@.len() == 0 ==> c.index == 0)
            &&& match c.inner {
                Option::Some(b) => wf_widget(*b),
                Option::None => true,
            }
        },
    }
}

/// Whether a widget can take events: its active child, where one is owed,
/// exists.
pub open spec fn live_widget(w: Widget) -> bool
    decreases w,
{
    match w {
        Widget::Arr(a) => match a.child {
            Option::Some(b) => live_widget(*b),
            Option::None => false,
        },
        Widget::ObjW(o) => match o.current {
            Option::Some(c) => live_widget(*c.2),
            Option::None => false,
        },
        Widget::Alt(c) => match c.inner {
            Option::Some(b) => live_widget(*b),
            Option::None => true,
        },
        _ => true,
    }
}

/// Whether a widget that reported `Submit` has a selection to extract.
pub open spec fn submit_ready(w: Widget) -> bool
    decreases w,
{
    match w {
        Widget::Sel(s) => s.has_selection(),
        Widget::Alt(c) => match c.inner {
            Option::Some(b) => submit_ready(*b),
            Option::None => false,
        },
        _ => true,
    }
}

/// Whether the typed input, where one is owed, parses to a value.
pub open spec fn value_ok(w: Widget) -> bool
    decreases w,
{
    match w {
        Widget::Num(n) => n.parses(),
        Widget::Alt(c) => match c.inner {
            Option::Some(b) => value_ok(*b),
            Option::None => true,
        },
        _ => true,
    }
}

/// The collected object fields that are present, in order.
pub open spec fn present_view(l: Seq<(String, Option<Val>)>) -> Seq<(Seq<char>, ValSpec)>
    decreases l.len(),
{
    if l.len() == 0 {
        Seq::<(Seq<char>, ValSpec)>::empty()
    } else {
        match l.last().1 {
            Option::Some(v) => present_view(l.drop_last()).push((l.last().0@, v@)),
            Option::None => present_view(l.drop_last()),
        }
    }
}

/// The value a widget currently stands for, as its submit operation
/// extracts it.
pub open spec fn submit_view(w: Widget) -> ValSpec
    decreases w,
{
    match w {
        Widget::Bool(b) => ValSpec::Bool(b.value),
        Widget::Text(t) => ValSpec::Str(t.buf.chars@),
        Widget::Num(n) => ValSpec::Int(parse_int_spec(n.buf.chars@)->0 as int),
        Widget::Sel(s) => s.selected().value@,
        Widget::DateSel(d) => ValSpec::Str(
            crate::prompts::date_text(d.year as int, d.month as int, d.day as int),
        ),
        Widget::Arr(a) => ValSpec::List(vals_view(a.values@)),
        Widget::ObjW(o) => ValSpec::Obj(present_view(o.collected@)),
        Widget::Alt(c) => match c.inner {
            Option::Some(b) => submit_view(*b),
            Option::None => ValSpec::Null,
        },
    }
}

/// A copy of a normalized node, equal view for view.
pub fn clone_schema_type(n: &SchemaType) -> (r: SchemaType)
    ensures
        r@ == n@,
    decreases n,
{
    match n {
        SchemaType::Boolean => SchemaType::Boolean,
        SchemaType::String(f) => SchemaType::String(crate::schema::clone_str_facets(f)),
        SchemaType::Number(f) => SchemaType::Number(crate::schema::clone_num_facets(f)),
        SchemaType::Integer(f) => SchemaType::Integer(crate::schema::clone_num_facets(f)),
        SchemaType::Array(a) => {
            let item: Option<Box<SchemaType>> = match &a.item {
                Option::Some(b) => {
                    proof {
                        assert(decreases_to!(*n => *a));
                        assert(decreases_to!(*a => a.item));
                        assert(decreases_to!(a.item => *b));
                    }
                    Option::Some(Box::new(clone_schema_type(&**b)))
                },
                Option::None => Option::None,
            };
            SchemaType::Array(
                crate::schema::ArrayNorm {
                    item,
                    min_items: a.min_items,
                    max_items: a.max_items,
                    unique_items: a.unique_items,
                },
            )
        },
        SchemaType::Object(props) => {
            proof {
                lemma_props_norm_view(props@);
            }
            let mut out: Vec<(String, (SchemaType, bool, Option<String>))> = Vec::new();
            let mut k: usize = 0;
            #[verifier::loop_isolation(false)]
            while k < props.len()
                invariant
                    0 <= k <= props@.len(),
                    out@.len() == k,
                    forall|i: int|
                        0 <= i < k ==> (
                            out@[i].0@,
                            out@[i].1.0@,
                            out@[i].1.1,
                            opt_text(out@[i].1.2),
                        ) == props_norm_view(props@)[i],
                decreases props@.len() - k,
            {
                proof {
                    assert(decreases_to!(*n => *props));
                    assert(decreases_to!(*props => props[k as int]));
                    assert(decreases_to!(props[k as int] => props[k as int].1));
                    assert(decreases_to!(props[k as int].1 => props[k as int].1.0));
                }
                let name = props[k].0.clone();
                let node = clone_schema_type(&props[k].1.0);
                let req = props[k].1.1;
                let desc = crate::schema::clone_opt_string(&props[k].1.2);
                out.push((name, (node, req, desc)));
                k = k + 1;
            }
            proof {
                lemma_props_norm_view(out@);
                assert(props_norm_view(out@) =~= props_norm_view(props@));
            }
            SchemaType::Object(out)
        },
        SchemaType::Choice(alts) => {
            proof {
                lemma_norms_view(alts@);
            }
            let mut out: Vec<SchemaType> = Vec::new();
            let mut k: usize = 0;
            #[verifier::loop_isolation(false)]
            while k < alts.len()
                invariant
                    0 <= k <= alts@.len(),
                    out@.len() == k,
                    forall|i: int| 0 <= i < k ==> out@[i]@ == norms_view(alts@)[i],
                decreases alts@.len() - k,
            {
                proof {
                    assert(decreases_to!(*n => *alts));
                    assert(decreases_to!(*alts => alts[k as int]));
                }
                let node = clone_schema_type(&alts[k]);
                out.push(node);
                k = k + 1;
            }
            proof {
                lemma_norms_view(out@);
                assert(norms_view(out@) =~= norms_view(alts@));
            }
            SchemaType::Choice(out)
        },
    }
}

impl ArrayPrompt {
    /// Takes one validated child value. A duplicate under `unique_items`
    /// is rejected with an error and nothing is appended; once `max_items`
    /// values are held, any further value is rejected with an error and
    /// nothing is appended; otherwise the value is appended. The index
    /// never advances on a rejection.
    #[verifier::loop_isolation(false)]
    pub fn accept(self, v: Val) -> (r: (ArrayPrompt, Option<String>))
        ensures
            r.0.message == self.message,
            r.0.item == self.item,
            r.0.min_items == self.min_items,
            r.0.max_items == self.max_items,
            r.0.unique_items == self.unique_items,
            r.0.child == self.child,
            (self.unique_items && holds_equal(self.values@, v@)) ==> (
            r.1 matches Option::Some(m) && m@ == "Value already exists"@ && r.0.values@
                == self.values@),
            (!(self.unique_items && holds_equal(self.values@, v@)) && (
            self.max_items matches Option::Some(max) && self.values@.len() >= max)) ==> (
            r.1 matches Option::Some(m) && m@ == "Array is full"@ && r.0.values@ == self.values@),
            (!(self.unique_items && holds_equal(self.values@, v@)) && !(
            self.max_items matches Option::Some(max) && self.values@.len() >= max)) ==> (
            r.1 is None && r.0.values@ == self.values@.push(v)),
    {
        if self.unique_items {
            let mut i: usize = 0;
            while i < self.values.len()
                invariant
                    0 <= i <= self.values@.len(),
                    forall|j: int| 0 <= j < i ==> self.values@[j]@ != v@,
                decreases self.values@.len() - i,
            {
                if crate::value::val_eq(&self.values[i], &v) {
                    assert(self.values@[i as int]@ == v@);
                    assert(holds_equal(self.values@, v@));
                    let mut msg: Vec<char> = Vec::new();
                    push_str_chars(&mut msg, "Value already exists");
                    return (self, Option::Some(chars_to_string(&msg)));
                }
                i = i + 1;
            }
        }
        if let Option::Some(max) = self.max_items {
            if self.values.len() >= max {
                let mut msg: Vec<char> = Vec::new();
                push_str_chars(&mut msg, "Array is full");
                return (self, Option::Some(chars_to_string(&msg)));
            }
        }
        let ArrayPrompt { message, item, min_items, max_items, unique_items, mut values, child } =
            self;
        values.push(v);
        (
            ArrayPrompt { message, item, min_items, max_items, unique_items, values, child },
            Option::None,
        )
    }
}

impl ObjectPrompt {
    /// Takes the active property's validated value: it is recorded present
    /// under the property's name, and the queue advances.
    pub fn accept(self, v: Val) -> (r: ObjectPrompt)
        requires
            self.current is Some,
        ensures
            r.message == self.message,
            r.pending == self.pending,
            r.current is None,
            r.inited == self.inited,
            (self.current matches Option::Some(c) && r.collected@ == self.collected@.push(
                (c.0, Option::Some(v)),
            )),
    {
        let ObjectPrompt { message, pending, current, mut collected, inited } = self;
        let c = match current {
            Option::Some(c) => c,
            Option::None => {
                // Unreachable: the precondition owes an active child.
                proof {
                    assert(false);
                }
                (String::new(), false, Box::new(Widget::Bool(BooleanPrompt::new(
                    String::new(),
                    Option::None,
                ))))
            },
        };
        collected.push((c.0, Option::Some(v)));
        (ObjectPrompt { message, pending, current: Option::None, collected, inited })
    }

    /// Pre-populates the collected fields from the supplied values,
    /// replacing whatever was collected before: each supplied property is
    /// recorded present and is skipped when the queue is built.
    #[verifier::loop_isolation(false)]
    pub fn with_value(self, value: Vec<(String, Val)>) -> (r: ObjectPrompt)
        ensures
            r.message == self.message,
            r.pending == self.pending,
            r.current == self.current,
            r.inited == self.inited,
            r.collected@.len() == value@.len(),
            forall|i: int|
                0 <= i < value@.len() ==> r.collected@[i] == (
                    value@[i].0,
                    Option::Some(value@[i].1),
                ),
    {
        let ghost orig = value@;
        let mut collected: Vec<(String, Option<Val>)> = Vec::new();
        let mut rest = value;
        let ghost c: int = 0;
        while rest.len() > 0
            invariant
                0 <= c <= orig.len(),
                rest@ == orig.skip(c),
                collected@.len() == c,
                forall|i: int|
                    0 <= i < c ==> collected@[i] == (orig[i].0, Option::Some(orig[i].1)),
            decreases rest@.len(),
        {
            let head = rest.remove(0);
            proof {
                assert(head == orig[c]);
                assert(rest@ =~= orig.skip(c + 1));
            }
            collected.push((head.0, Option::Some(head.1)));
            proof {
                c = c + 1;
            }
        }
        let ObjectPrompt { message, pending, current, collected: _, inited } = self;
        ObjectPrompt { message, pending, current, collected, inited }
    }

    /// Interprets the active child's cancellation. A required property
    /// cannot be abandoned: the queue does not advance, and the error
    /// names the property. An optional property is recorded absent and
    /// the queue advances.
    pub fn cancel_current(self) -> (r: (ObjectPrompt, Option<String>))
        requires
            self.current is Some,
        ensures
            r.0.message == self.message,
            r.0.inited == self.inited,
            (self.current matches Option::Some(c) && c.1) ==> (
            r.1 matches Option::Some(m) && (self.current matches Option::Some(c2) && m@ == c2.0@
                + " is required field"@) && r.0.collected@ == self.collected@ && r.0.pending
                == self.pending && r.0.current == self.current),
            (self.current matches Option::Some(c) && !c.1) ==> (
            r.1 is None && (self.current matches Option::Some(c2) && r.0.collected@
                == self.collected@.push((c2.0, Option::None))) && r.0.pending == self.pending
                && r.0.current is None),
    {
        let ObjectPrompt { message, pending, current, mut collected, inited } = self;
        let c = match current {
            Option::Some(c) => c,
            Option::None => {
                // Unreachable: the precondition owes an active child.
                proof {
                    assert(false);
                }
                (String::new(), false, Box::new(Widget::Bool(BooleanPrompt::new(
                    String::new(),
                    Option::None,
                ))))
            },
        };
        if c.1 {
            let mut msg: Vec<char> = Vec::new();
            let name = crate::text::string_to_chars(c.0.as_str());
            push_all(&mut msg, &name);
            push_str_chars(&mut msg, " is required field");
            let m = chars_to_string(&msg);
            (
                ObjectPrompt { message, pending, current: Option::Some(c), collected, inited },
                Option::Some(m),
            )
        } else {
            collected.push((c.0, Option::None));
            (
                ObjectPrompt { message, pending, current: Option::None, collected, inited },
                Option::None,
            )
        }
    }
}

/// The skippable wrapper: a distinguished skip event (`Esc` before the
/// wrapped widget sees it) turns the whole interaction into a submitted
/// absence.
pub struct Skippable {
    pub inner: Widget,
    pub skip: bool,
}

impl Skippable {
    pub fn new(inner: Widget) -> (r: Skippable)
        ensures
            r.inner == inner,
            !r.skip,
    {
        Skippable { inner, skip: false }
    }
}

/// A widget of a property queue waiting to be asked, with its required
/// flag intact: whether `name` is already answered in `collected`.
fn collected_has(collected: &Vec<(String, Option<Val>)>, name: &String) -> (r: bool)
    ensures
        r == (exists|i: int| 0 <= i < collected@.len() && collected@[i].0@ == name@),
{
    let mut i: usize = 0;
    while i < collected.len()
        invariant
            0 <= i <= collected@.len(),
            forall|j: int| 0 <= j < i ==> collected@[j].0@ != name@,
        decreases collected@.len() - i,
    {
        if collected[i].0.eq(name) {
            assert(collected@[i as int].0@ == name@);
            return true;
        }
        i = i + 1;
    }
    false
}

/// The message an array gives its next child: `message[index]`.
fn indexed_message(message: &String, idx: usize) -> (r: String)
    ensures
        r@ == message@ + seq!['['] + crate::text::nat_text(idx as int) + seq![']'],
{
    let mut out: Vec<char> = crate::text::string_to_chars(message.as_str());
    out.push('[');
    let digits = usize_digits(idx);
    push_all(&mut out, &digits);
    out.push(']');
    assert(out@ =~= message@ + seq!['['] + crate::text::nat_text(idx as int) + seq![']']);
    chars_to_string(&out)
}


/// The supplied default values, if any, as a sequence of pairs.
pub open spec fn opt_pairs(d: Option<&Vec<(String, Val)>>) -> Option<Seq<(String, Val)>> {
    match d {
        Option::Some(v) => Option::Some(v@),
        Option::None => Option::None,
    }
}

/// Whether one of the supplied default values answers the given name.
/// Whether one of the supplied pairs carries the given name.
pub open spec fn name_answered(d: Seq<(String, Val)>, name: Seq<char>) -> bool {
    exists|j: int| 0 <= j < d.len() && (#[trigger] d[j]).0@ == name
}

pub open spec fn in_defaults(defaults: Option<Seq<(String, Val)>>, name: Seq<char>) -> bool {
    match defaults {
        Option::None => false,
        Option::Some(d) => name_answered(d, name),
    }
}

/// The first property at or after `j` the defaults leave unanswered, or
/// `-1` when every remaining one is answered.
pub open spec fn first_pending(
    props: Seq<(Seq<char>, NormSpec, bool, Option<Seq<char>>)>,
    defaults: Option<Seq<(String, Val)>>,
    j: int,
) -> int
    decreases props.len() - j,
{
    if j < 0 || j >= props.len() {
        -1
    } else if !in_defaults(defaults, props[j].0) {
        j
    } else {
        first_pending(props, defaults, j + 1)
    }
}

/// The properties of `props[j..i)` the defaults leave unanswered, in
/// declaration order.
pub open spec fn pending_tail(
    props: Seq<(Seq<char>, NormSpec, bool, Option<Seq<char>>)>,
    defaults: Option<Seq<(String, Val)>>,
    j: int,
    i: int,
) -> Seq<(Seq<char>, NormSpec, bool, Option<Seq<char>>)>
    decreases i,
{
    if i <= j || i <= 0 {
        Seq::<(Seq<char>, NormSpec, bool, Option<Seq<char>>)>::empty()
    } else if i > props.len() {
        pending_tail(props, defaults, j, props.len() as int)
    } else if in_defaults(defaults, props[i - 1].0) {
        pending_tail(props, defaults, j, i - 1)
    } else {
        pending_tail(props, defaults, j, i - 1).push(props[i - 1])
    }
}

/// Whether the prompt compiler can make a widget of a node: an array must
/// declare an items node that is itself promptable; an object must keep at
/// least one property the defaults leave unanswered, its node promptable;
/// a choice must offer at least one alternative; every leaf is promptable.
pub open spec fn promptable(n: NormSpec, defaults: Option<Seq<(String, Val)>>) -> bool
    decreases n,
{
    match n {
        NormSpec::Object(props) => {
            let i = first_pending(props, defaults, 0);
            if 0 <= i && i < props.len() {
                promptable(props[i].1, Option::None)
            } else {
                false
            }
        },
        NormSpec::Array { item, min_items, max_items, unique_items } => item.len() == 1
            && promptable(item[0], Option::None),
        NormSpec::Choice(alts) => alts.len() > 0,
        _ => true,
    }
}

/// The message a composite gives the child of one index.
pub open spec fn indexed_msg(message: Seq<char>, idx: int) -> Seq<char> {
    message + seq!['['] + crate::text::nat_text(idx) + seq![']']
}

/// The views of a property queue awaiting its turn.
pub open spec fn queue_view(l: Seq<(String, SchemaType, bool, Option<String>)>) -> Seq<
    (Seq<char>, NormSpec, bool, Option<Seq<char>>),
>
    decreases l,
{
    if l.len() == 0 {
        Seq::<(Seq<char>, NormSpec, bool, Option<Seq<char>>)>::empty()
    } else {
        queue_view(l.drop_last()).push(
            (l.last().0@, l.last().1@, l.last().2, opt_text(l.last().3)),
        )
    }
}

/// `queue_view` maps the queue entry by entry.
pub proof fn lemma_queue_view(l: Seq<(String, SchemaType, bool, Option<String>)>)
    ensures
        queue_view(l).len() == l.len(),
        forall|i: int|
            0 <= i < l.len() ==> queue_view(l)[i] == (l[i].0@, l[i].1@, l[i].2, opt_text(l[i].3)),
    decreases l.len(),
{
    if l.len() > 0 {
        lemma_queue_view(l.drop_last());
        assert(queue_view(l) == queue_view(l.drop_last()).push(
            (l.last().0@, l.last().1@, l.last().2, opt_text(l.last().3)),
        ));
        assert forall|i: int|
            0 <= i < l.len() implies queue_view(l)[i] == (
            l[i].0@,
            l[i].1@,
            l[i].2,
            opt_text(l[i].3),
        ) by {
            if i < l.len() - 1 {
                assert(l.drop_last()[i] == l[i]);
                assert(queue_view(l)[i] == queue_view(l.drop_last())[i]);
            } else {
                assert(l.last() == l[i]);
            }
        }
    }
}

/// Whether a widget is exactly what the prompt compiler yields for a node
/// under the given label, hint and defaults: the kind follows the node's
/// tag (an enumeration takes precedence over any format), the facets are
/// carried over, composites hold their compiled first child, an object's
/// queue holds the not-yet-answered properties in declaration order, and a
/// choice holds its alternatives with nothing picked yet.
pub open spec fn compiled_from(
    w: Widget,
    node: NormSpec,
    message: Seq<char>,
    hint: Option<Seq<char>>,
    defaults: Option<Seq<(String, Val)>>,
) -> bool
    decreases node,
{
    match node {
        NormSpec::Boolean => w matches Widget::Bool(b) && b.message@ == message && opt_text(
            b.description,
        ) == hint && !b.value,
        NormSpec::String(f) => if f.enumeration.len() > 0 {
            w matches Widget::Sel(en) && en.message@ == message && en.options@.len()
                == f.enumeration.len() && (forall|i: int|
                0 <= i < f.enumeration.len() ==> en.options@[i].label@ == f.enumeration[i]
                    && en.options@[i].value@ == ValSpec::Str(f.enumeration[i]))
                && en.input.chars@ == Seq::<char>::empty()
        } else if f.format == crate::document::StrFormat::Date {
            w matches Widget::DateSel(d) && d.message@ == message && opt_text(d.hint) == hint
                && d.date_of() == (2000int, 1int, 1int)
        } else {
            w matches Widget::Text(t) && t.message@ == message && opt_text(t.hint) == hint
                && crate::schema::str_facets_view(t.facets) == f && t.buf.chars@ == Seq::<
                char,
            >::empty()
        },
        NormSpec::Number(f) => if f.enumeration.len() > 0 {
            w matches Widget::Sel(en) && en.message@ == message && en.options@.len()
                == f.enumeration.len() && (forall|i: int|
                0 <= i < f.enumeration.len() ==> en.options@[i].label@ == crate::text::int_text(
                    f.enumeration[i] as int,
                ) && en.options@[i].value@ == ValSpec::Int(f.enumeration[i] as int))
                && en.input.chars@ == Seq::<char>::empty()
        } else {
            w matches Widget::Num(n) && n.message@ == message && opt_text(n.hint) == hint
                && crate::schema::num_facets_view(n.facets) == f && !n.integer && n.buf.chars@
                == Seq::<char>::empty()
        },
        NormSpec::Integer(f) => if f.enumeration.len() > 0 {
            w matches Widget::Sel(en) && en.message@ == message && en.options@.len()
                == f.enumeration.len() && (forall|i: int|
                0 <= i < f.enumeration.len() ==> en.options@[i].label@ == crate::text::int_text(
                    f.enumeration[i] as int,
                ) && en.options@[i].value@ == ValSpec::Int(f.enumeration[i] as int))
                && en.input.chars@ == Seq::<char>::empty()
        } else {
            w matches Widget::Num(n) && n.message@ == message && opt_text(n.hint) == hint
                && crate::schema::num_facets_view(n.facets) == f && n.integer && n.buf.chars@
                == Seq::<char>::empty()
        },
        NormSpec::Array { item, min_items, max_items, unique_items } => item.len() == 1 && (
        w matches Widget::Arr(a) && a.message@ == message && a.min_items == min_items
            && a.max_items == max_items && a.unique_items == unique_items && a.values@ == Seq::<
            Val,
        >::empty() && (a.item matches Option::Some(bn) && (*bn)@ == item[0]) && (
        a.child matches Option::Some(cw) && compiled_from(
            *cw,
            item[0],
            indexed_msg(message, 0),
            Option::None,
            Option::None,
        ))),
        NormSpec::Object(props) => {
            let i = first_pending(props, defaults, 0);
            &&& w matches Widget::ObjW(o)
            &&& o.message@ == message
            &&& o.inited
            &&& match defaults {
                Option::Some(d) => o.collected@.len() == d.len() && (forall|k: int|
                    0 <= k < d.len() ==> o.collected@[k].0@ == d[k].0@ && (
                    o.collected@[k].1 matches Option::Some(v) && v@ == d[k].1@)),
                Option::None => o.collected@ == Seq::<(String, Option<Val>)>::empty(),
            }
            &&& 0 <= i && i < props.len()
            &&& (w matches Widget::ObjW(o2) && o2.current matches Option::Some(c) && c.0@
                == props[i].0 && c.1 == props[i].2 && compiled_from(
                *c.2,
                props[i].1,
                props[i].0,
                props[i].3,
                Option::None,
            ) && queue_view(o2.pending@) == pending_tail(props, defaults, i + 1, props.len() as int))
        },
        NormSpec::Choice(alts) => alts.len() > 0 && (
        w matches Widget::Alt(c) && c.message@ == message && opt_text(c.hint) == hint && c.index
            == 0 && c.inner is None && norms_view(c.alts@) == alts),
    }
}


/// Pre-populates an object's collected fields from the supplied defaults:
/// each default is recorded present under its name, and the recorded names
/// are exactly the default names.
#[verifier::loop_isolation(false)]
fn seed_collected(default: Option<&Vec<(String, Val)>>) -> (r: Vec<(String, Option<Val>)>)
    ensures
        match default {
            Option::Some(d) => r@.len() == d@.len() && (forall|i: int|
                0 <= i < d@.len() ==> r@[i].0@ == d@[i].0@ && (
                r@[i].1 matches Option::Some(v) && v@ == d@[i].1@)),
            Option::None => r@ == Seq::<(String, Option<Val>)>::empty(),
        },
        forall|x: Seq<char>|
            (exists|i: int| 0 <= i < r@.len() && r@[i].0@ == x) == in_defaults(
                opt_pairs(default),
                x,
            ),
{
    let mut collected: Vec<(String, Option<Val>)> = Vec::new();
    match default {
        Option::Some(d) => {
            let mut k: usize = 0;
            while k < d.len()
                invariant
                    0 <= k <= d@.len(),
                    collected@.len() == k,
                    forall|i: int|
                        0 <= i < k ==> collected@[i].0@ == d@[i].0@ && (
                        collected@[i].1 matches Option::Some(v) && v@ == d@[i].1@),
                decreases d@.len() - k,
            {
                let name = d[k].0.clone();
                let v = clone_val(&d[k].1);
                collected.push((name, Option::Some(v)));
                k = k + 1;
            }
            proof {
                assert forall|x: Seq<char>|
                    (exists|i: int| 0 <= i < collected@.len() && collected@[i].0@ == x)
                        == in_defaults(opt_pairs(default), x) by {
                    if exists|i: int| 0 <= i < collected@.len() && collected@[i].0@ == x {
                        let i = choose|i: int|
                            0 <= i < collected@.len() && collected@[i].0@ == x;
                        assert(0 <= i < d@.len());
                        assert(d@[i].0@ == x);
                        assert(opt_pairs(default) == Option::Some(d@));
                        assert(exists|j: int| 0 <= j < d@.len() && d@[j].0@ == x);
                        assert(in_defaults(Option::Some(d@), x));
                        assert(in_defaults(opt_pairs(default), x));
                    }
                    if in_defaults(opt_pairs(default), x) {
                        let j = choose|j: int| 0 <= j < d@.len() && d@[j].0@ == x;
                        assert(0 <= j < collected@.len());
                        assert(collected@[j].0@ == x);
                        assert(exists|i: int|
                            0 <= i < collected@.len() && collected@[i].0@ == x);
                    }
                }
            }
            collected
        },
        Option::None => collected,
    }
}

/// Compiles a normalized node into an initialized widget, per the
/// compilation rules: a declared enumeration takes precedence over any
/// format; a password-formatted string keeps its format in the facets for
/// masked rendering; a date-formatted string becomes a calendar picker
/// opened at the first day of the year 2000; an
/// object pre-populates properties supplied in `default` and queues the
/// rest in order; an array compiles its first child at once. Fails when an
/// array declares no items, when an object is left without any property to
/// ask, or when a choice offers no alternatives.
pub fn prompt_builder(
    node: &SchemaType,
    message: String,
    hint: Option<String>,
    default: Option<&Vec<(String, Val)>>,
) -> (res: Result<Widget, String>)
    ensures
        match res {
            Result::Ok(w) => wf_widget(w) && live_widget(w) && promptable(
                node@,
                opt_pairs(default),
            ) && compiled_from(w, node@, message@, opt_text(hint), opt_pairs(default)),
            Result::Err(_) => !promptable(node@, opt_pairs(default)),
        },
    decreases node,
{
    match node {
        SchemaType::Boolean => Result::Ok(Widget::Bool(BooleanPrompt::new(message, hint))),
        SchemaType::String(f) => {
            if f.enumeration.len() > 0 {
                proof {
                    crate::schema::lemma_strs_view(f.enumeration@);
                }
                let mut options: Vec<SelectOption> = Vec::new();
                let mut k: usize = 0;
                #[verifier::loop_isolation(false)]
                while k < f.enumeration.len()
                    invariant
                        0 <= k <= f.enumeration@.len(),
                        options@.len() == k,
                        forall|i: int|
                            0 <= i < k ==> options@[i].label@ == f.enumeration@[i]@
                                && options@[i].value@ == ValSpec::Str(f.enumeration@[i]@),
                    decreases f.enumeration@.len() - k,
                {
                    let label = f.enumeration[k].clone();
                    let value = Val::Str(f.enumeration[k].clone());
                    options.push(SelectOption { label, hint: Option::None, value });
                    k = k + 1;
                }
                Result::Ok(Widget::Sel(Enumeration::new(message, options)))
            } else if matches!(f.format, crate::document::StrFormat::Date) {
                Result::Ok(
                    Widget::DateSel(DatePrompt {
                        message,
                        hint,
                        year: 2000,
                        month: 1,
                        day: 1,
                    }),
                )
            } else {
                Result::Ok(
                    Widget::Text(TextPrompt {
                        message,
                        hint,
                        facets: crate::schema::clone_str_facets(f),
                        buf: InputBuffer::new(),
                    }),
                )
            }
        },
        SchemaType::Number(f) => {
            if f.enumeration.len() > 0 {
                Result::Ok(Widget::Sel(Enumeration::new(message, num_options(&f.enumeration))))
            } else {
                Result::Ok(
                    Widget::Num(NumberPrompt {
                        message,
                        hint,
                        facets: crate::schema::clone_num_facets(f),
                        integer: false,
                        buf: InputBuffer::new(),
                    }),
                )
            }
        },
        SchemaType::Integer(f) => {
            if f.enumeration.len() > 0 {
                Result::Ok(Widget::Sel(Enumeration::new(message, num_options(&f.enumeration))))
            } else {
                Result::Ok(
                    Widget::Num(NumberPrompt {
                        message,
                        hint,
                        facets: crate::schema::clone_num_facets(f),
                        integer: true,
                        buf: InputBuffer::new(),
                    }),
                )
            }
        },
        SchemaType::Array(af) => {
            let item: &Box<SchemaType> = match &af.item {
                Option::Some(b) => b,
                Option::None => {
                    assert(!promptable(node@, opt_pairs(default)));
                    let mut msg: Vec<char> = Vec::new();
                    push_str_chars(&mut msg, "No items schema found");
                    return Result::Err(chars_to_string(&msg));
                },
            };
            let child_msg = indexed_message(&message, 0);
            proof {
                assert(decreases_to!(*node => *af));
                assert(decreases_to!(*af => af.item));
                assert(decreases_to!(af.item => *item));
            }
            let child = match prompt_builder(&**item, child_msg, Option::None, Option::None) {
                Result::Ok(c) => c,
                Result::Err(e) => {
                    return Result::Err(e);
                },
            };
            Result::Ok(
                Widget::Arr(ArrayPrompt {
                    message,
                    item: Option::Some(Box::new(clone_schema_type(&**item))),
                    min_items: af.min_items,
                    max_items: af.max_items,
                    unique_items: af.unique_items,
                    values: Vec::new(),
                    child: Option::Some(Box::new(child)),
                }),
            )
        },
        SchemaType::Object(props) => {
            proof {
                lemma_props_norm_view(props@);
            }
            let ghost pv = props_norm_view(props@);
            let ghost dv = opt_pairs(default);
            // Pre-populate the supplied defaults.
            let collected = seed_collected(default);
            // Find the first property that still needs asking.
            let mut fi: usize = 0;
            let mut found: bool = false;
            #[verifier::loop_isolation(false)]
            while fi < props.len() && !found
                invariant
                    0 <= fi <= props@.len(),
                    found ==> fi < props@.len() && first_pending(pv, dv, 0) == fi as int,
                    !found ==> first_pending(pv, dv, 0) == first_pending(pv, dv, fi as int),
                decreases props@.len() - fi + (if found { 0int } else { 1int }),
            {
                let answered = collected_has(&collected, &props[fi].0);
                proof {
                    assert(pv[fi as int].0 == props@[fi as int].0@);
                }
                if !answered {
                    found = true;
                } else {
                    fi = fi + 1;
                }
            }
            if !found {
                proof {
                    assert(first_pending(pv, dv, props@.len() as int) == -1);
                    assert(!promptable(node@, dv));
                }
                let mut msg: Vec<char> = Vec::new();
                push_str_chars(&mut msg, "No prompt found");
                return Result::Err(chars_to_string(&msg));
            }
            proof {
                assert(decreases_to!(*node => *props));
                assert(decreases_to!(*props => props[fi as int]));
                assert(decreases_to!(props[fi as int] => props[fi as int].1));
                assert(decreases_to!(props[fi as int].1 => props[fi as int].1.0));
            }
            proof {
                assert(pv[fi as int] == (
                    props@[fi as int].0@,
                    props@[fi as int].1.0@,
                    props@[fi as int].1.1,
                    opt_text(props@[fi as int].1.2),
                ));
            }
            let head_name = props[fi].0.clone();
            let head_req = props[fi].1.1;
            let child = match prompt_builder(
                &props[fi].1.0,
                props[fi].0.clone(),
                crate::schema::clone_opt_string(&props[fi].1.2),
                Option::None,
            ) {
                Result::Ok(c) => c,
                Result::Err(e) => {
                    // The active property's own node cannot be compiled.
                    assert(!promptable(node@, dv));
                    return Result::Err(e);
                },
            };
            let mut queue: Vec<(String, SchemaType, bool, Option<String>)> = Vec::new();
            let mut k: usize = fi + 1;
            #[verifier::loop_isolation(false)]
            while k < props.len()
                invariant
                    fi + 1 <= k <= props@.len() || k == fi + 1,
                    queue_view(queue@) == pending_tail(pv, dv, fi as int + 1, k as int),
                decreases props@.len() - k,
            {
                let answered = collected_has(&collected, &props[k].0);
                proof {
                    assert(pv[k as int] == (
                        props@[k as int].0@,
                        props@[k as int].1.0@,
                        props@[k as int].1.1,
                        opt_text(props@[k as int].1.2),
                    ));
                }
                if !answered {
                    proof {
                        assert(decreases_to!(*node => *props));
                        assert(decreases_to!(*props => props[k as int]));
                        assert(decreases_to!(props[k as int] => props[k as int].1));
                        assert(decreases_to!(props[k as int].1 => props[k as int].1.0));
                    }
                    let name = props[k].0.clone();
                    let child_node = clone_schema_type(&props[k].1.0);
                    let req = props[k].1.1;
                    let desc = crate::schema::clone_opt_string(&props[k].1.2);
                    let ghost pre = queue@;
                    queue.push((name, child_node, req, desc));
                    proof {
                        assert(queue@.drop_last() =~= pre);
                        assert(queue_view(queue@) == queue_view(pre).push(
                            (
                                queue@.last().0@,
                                queue@.last().1@,
                                queue@.last().2,
                                opt_text(queue@.last().3),
                            ),
                        ));
                        assert(queue_view(queue@) =~= pending_tail(pv, dv, fi as int + 1, k as int + 1));
                    }
                }
                k = k + 1;
            }
            proof {
                assert(promptable(node@, dv));
            }
            Result::Ok(
                Widget::ObjW(ObjectPrompt {
                    message,
                    pending: queue,
                    current: Option::Some((head_name, head_req, Box::new(child))),
                    collected,
                    inited: true,
                }),
            )
        },
        SchemaType::Choice(alts) => {
            if alts.len() == 0 {
                proof {
                    assert(norms_view(alts@).len() == 0);
                }
                let mut msg: Vec<char> = Vec::new();
                push_str_chars(&mut msg, "options cannot be empty.");
                return Result::Err(chars_to_string(&msg));
            }
            proof {
                lemma_norms_view(alts@);
            }
            let mut own: Vec<SchemaType> = Vec::new();
            let mut k: usize = 0;
            #[verifier::loop_isolation(false)]
            while k < alts.len()
                invariant
                    0 <= k <= alts@.len(),
                    own@.len() == k,
                    forall|i: int| 0 <= i < k ==> own@[i]@ == norms_view(alts@)[i],
                decreases alts@.len() - k,
            {
                proof {
                    assert(decreases_to!(*node => *alts));
                    assert(decreases_to!(*alts => alts[k as int]));
                }
                let c = clone_schema_type(&alts[k]);
                own.push(c);
                k = k + 1;
            }
            proof {
                lemma_norms_view(own@);
                assert(norms_view(own@) =~= norms_view(alts@));
            }
            Result::Ok(
                Widget::Alt(ChoicePrompt {
                    message,
                    hint,
                    alts: own,
                    index: 0,
                    inner: Option::None,
                }),
            )
        },
    }
}

/// The selection options of a numeric enumeration.
fn num_options(enumeration: &Vec<i64>) -> (r: Vec<SelectOption>)
    ensures
        r@.len() == enumeration@.len(),
        forall|i: int|
            0 <= i < enumeration@.len() ==> r@[i].label@ == crate::text::int_text(
                enumeration@[i] as int,
            ) && r@[i].value@ == ValSpec::Int(enumeration@[i] as int),
{
    let mut options: Vec<SelectOption> = Vec::new();
    let mut k: usize = 0;
    #[verifier::loop_isolation(false)]
    while k < enumeration.len()
        invariant
            0 <= k <= enumeration@.len(),
            options@.len() == k,
            forall|i: int|
                0 <= i < k ==> options@[i].label@ == crate::text::int_text(enumeration@[i] as int)
                    && options@[i].value@ == ValSpec::Int(enumeration@[i] as int),
        decreases enumeration@.len() - k,
    {
        let label = crate::text::i64_to_string(enumeration[k]);
        options.push(SelectOption { label, hint: Option::None, value: Val::Int(enumeration[k]) });
        k = k + 1;
    }
    options
}

/// Compiles a node as an optional field: the widget, wrapped skippable.
pub fn optional_prompt_builder(
    node: &SchemaType,
    message: String,
    hint: Option<String>,
    default: Option<&Vec<(String, Val)>>,
) -> (res: Result<Skippable, String>)
    ensures
        match res {
            Result::Ok(s) => !s.skip && wf_widget(s.inner) && live_widget(s.inner) && promptable(
                node@,
                opt_pairs(default),
            ) && compiled_from(s.inner, node@, message@, opt_text(hint), opt_pairs(default)),
            Result::Err(_) => !promptable(node@, opt_pairs(default)),
        },
{
    match prompt_builder(node, message, hint, default) {
        Result::Ok(w) => Result::Ok(Skippable::new(w)),
        Result::Err(e) => Result::Err(e),
    }
}

/// A widget chain that has finished collecting an object: its validation
/// never fails.
pub open spec fn finished_obj(w: Widget) -> bool
    decreases w,
{
    match w {
        Widget::ObjW(o) => o.current is None,
        Widget::Alt(c) => match c.inner {
            Option::Some(b) => finished_obj(*b),
            Option::None => false,
        },
        _ => false,
    }
}

/// Whether a widget's current state passes its validator: a text input's
/// facets hold, a numeric input parses within its facets, an array holds
/// at least `min_items` values, and a choice defers to its inner widget;
/// everything else passes.
pub open spec fn valid_spec(w: Widget) -> bool
    decreases w,
{
    match w {
        Widget::Text(t) => crate::validate::string_ok(t.facets, t.buf.chars@),
        Widget::Num(n) => crate::validate::number_ok(n.facets, n.buf.chars@),
        Widget::Arr(a) => match a.min_items {
            Option::Some(min) => a.values@.len() >= min,
            Option::None => true,
        },
        Widget::Alt(c) => match c.inner {
            Option::Some(b) => valid_spec(*b),
            Option::None => true,
        },
        _ => true,
    }
}

/// Checks a widget that offered to submit: numbers against their facets,
/// strings against theirs, and an array's accumulated count against
/// `min_items`; everything else passes. Acceptance is exactly
/// `valid_spec`.
pub fn widget_validate(w: &Widget) -> (r: Validation)
    requires
        wf_widget(*w),
    ensures
        r is Valid <==> valid_spec(*w),
        r is Valid ==> value_ok(*w),
        finished_obj(*w) ==> r is Valid,
        *w matches Widget::Text(t) ==> crate::validate::string_verdict(t.facets, t.buf.chars@, r),
        *w matches Widget::Num(n) ==> crate::validate::number_verdict(n.facets, n.buf.chars@, r),
        *w matches Widget::Arr(a) ==> (match a.min_items {
            Option::Some(min) => if a.values@.len() < min {
                r matches Validation::Invalid(m) && m@ == "Array must have at least "@
                    + crate::text::nat_text(min as int) + " items"@
            } else {
                r is Valid
            },
            Option::None => r is Valid,
        }),
    decreases w,
{
    match w {
        Widget::Bool(_) => Validation::Valid,
        Widget::Text(t) => {
            let r = t.validate();
            proof {
                crate::validate::lemma_string_verdict_two_sided(t.facets, t.buf.chars@, r);
            }
            r
        },
        Widget::Num(n) => {
            let r = n.validate();
            proof {
                crate::validate::lemma_number_verdict_two_sided(n.facets, n.buf.chars@, r);
            }
            r
        },
        Widget::Sel(_) => Validation::Valid,
        Widget::DateSel(_) => Validation::Valid,
        Widget::ObjW(_) => Validation::Valid,
        Widget::Arr(a) => {
            if let Option::Some(min) = a.min_items {
                if a.values.len() < min {
                    let mut msg: Vec<char> = Vec::new();
                    push_str_chars(&mut msg, "Array must have at least ");
                    let d = usize_digits(min);
                    push_all(&mut msg, &d);
                    push_str_chars(&mut msg, " items");
                    return Validation::Invalid(chars_to_string(&msg));
                }
            }
            Validation::Valid
        },
        Widget::Alt(c) => match &c.inner {
            Option::Some(b) => {
                proof {
                    assert(decreases_to!(*w => *c));
                    assert(decreases_to!(*c => c.inner));
                    assert(decreases_to!(c.inner => *b));
                }
                widget_validate(&**b)
            },
            Option::None => Validation::Valid,
        },
    }
}

/// Extracts the value a widget stands for. Valid only after a submit
/// offer passed validation.
pub fn widget_submit(w: &Widget) -> (r: Val)
    requires
        wf_widget(*w),
        submit_ready(*w),
        value_ok(*w),
    ensures
        r@ == submit_view(*w),
    decreases w,
{
    match w {
        Widget::Bool(b) => b.submit(),
        Widget::Text(t) => t.submit(),
        Widget::Num(n) => n.submit(),
        Widget::Sel(s) => s.submit(),
        Widget::DateSel(d) => d.submit(),
        Widget::Arr(a) => {
            proof {
                lemma_vals_view(a.values@);
            }
            let mut out: Vec<Val> = Vec::new();
            let mut k: usize = 0;
            #[verifier::loop_isolation(false)]
            while k < a.values.len()
                invariant
                    0 <= k <= a.values@.len(),
                    out@.len() == k,
                    forall|i: int| 0 <= i < k ==> out@[i]@ == a.values@[i]@,
                decreases a.values@.len() - k,
            {
                let c = clone_val(&a.values[k]);
                out.push(c);
                k = k + 1;
            }
            proof {
                lemma_vals_view(out@);
                assert(vals_view(out@) =~= vals_view(a.values@));
            }
            Val::List(out)
        },
        Widget::ObjW(o) => {
            let mut out: Vec<(String, Val)> = Vec::new();
            let mut k: usize = 0;
            #[verifier::loop_isolation(false)]
            while k < o.collected.len()
                invariant
                    0 <= k <= o.collected@.len(),
                    fields_view(out@) == present_view(o.collected@.subrange(0, k as int)),
                decreases o.collected@.len() - k,
            {
                let ghost pre = out@;
                match &o.collected[k].1 {
                    Option::Some(v) => {
                        let c = clone_val(v);
                        out.push((o.collected[k].0.clone(), c));
                        proof {
                            assert(out@.drop_last() =~= pre);
                            assert(fields_view(out@) == fields_view(pre).push(
                                (out@.last().0@, out@.last().1@),
                            ));
                        }
                    },
                    Option::None => {},
                }
                k = k + 1;
                proof {
                    let sub = o.collected@.subrange(0, k as int);
                    assert(sub.drop_last() =~= o.collected@.subrange(0, k - 1));
                    assert(sub.last() == o.collected@[k - 1]);
                }
            }
            proof {
                assert(o.collected@.subrange(0, o.collected@.len() as int) =~= o.collected@);
            }
            Val::Obj(out)
        },
        Widget::Alt(c) => match &c.inner {
            Option::Some(b) => {
                proof {
                    assert(decreases_to!(*w => *c));
                    assert(decreases_to!(*c => c.inner));
                    assert(decreases_to!(c.inner => *b));
                }
                widget_submit(&**b)
            },
            Option::None => Val::Null,
        },
    }
}


/// Whether the array already holds a value equal to `v`.
pub open spec fn holds_equal(values: Seq<Val>, v: ValSpec) -> bool {
    exists|i: int| 0 <= i < values.len() && values[i]@ == v
}

/// Whether an array kept its declaration across a step.
pub open spec fn arr_decl_kept(a: ArrayPrompt, a2: ArrayPrompt) -> bool {
    &&& a2.message == a.message
    &&& a2.item == a.item
    &&& a2.min_items == a.min_items
    &&& a2.max_items == a.max_items
    &&& a2.unique_items == a.unique_items
}

/// Whether the array holds a freshly compiled child for the index its
/// items now reach.
pub open spec fn arr_fresh_child(a2: ArrayPrompt) -> bool {
    a2.item matches Option::Some(n) && (a2.child matches Option::Some(cw) && compiled_from(
        *cw,
        (*n)@,
        indexed_msg(a2.message@, a2.values@.len() as int),
        Option::None,
        Option::None,
    ))
}

/// How an array answers its active child's transition: a child submit is
/// validated and its value taken under the uniqueness and size rules,
/// with a rejection reported and the items unchanged; a child cancel
/// finishes the array with the items kept; every other child state passes
/// through with the stepped child kept.
pub open spec fn arr_trans(
    a: ArrayPrompt,
    c2: Widget,
    cst: PromptState,
    a2: ArrayPrompt,
    st: PromptState,
) -> bool {
    &&& arr_decl_kept(a, a2)
    &&& match cst {
        PromptState::Cancel => st is Submit && a2.values@ == a.values@ && (
        a2.child matches Option::Some(b) && *b == c2),
        PromptState::Submit => if !valid_spec(c2) {
            st matches PromptState::Error(_) && a2.values@ == a.values@ && (
            a2.child matches Option::Some(b) && *b == c2)
        } else if a.unique_items && holds_equal(a.values@, submit_view(c2)) {
            a2.values@ == a.values@ && ((st matches PromptState::Error(m) && m@
                == "Value already exists"@ && arr_fresh_child(a2)) || st is Fatal)
        } else if a.max_items matches Option::Some(max) && a.values@.len() >= max {
            a2.values@ == a.values@ && ((st matches PromptState::Error(m) && m@
                == "Array is full"@ && arr_fresh_child(a2)) || st is Fatal)
        } else {
            a2.values@.len() == a.values@.len() + 1 && a2.values@.subrange(
                0,
                a.values@.len() as int,
            ) == a.values@ && a2.values@.last()@ == submit_view(c2) && ((st is Active
                && arr_fresh_child(a2)) || st is Fatal)
        },
        _ => st == cst && a2.values@ == a.values@ && (a2.child matches Option::Some(b) && *b
            == c2),
    }
}

/// Whether an object advanced past its answered property: the next queued
/// property became active with a freshly compiled widget, the queue ended
/// and the object submits, or the compilation failed fatally.
pub open spec fn obj_advanced(o: ObjectPrompt, o2: ObjectPrompt, st: PromptState) -> bool {
    if o.pending@.len() == 0 {
        st is Submit && o2.current is None && o2.pending == o.pending
    } else {
        o2.pending@ == o.pending@.drop_first() && ((st is Active && (
        o2.current matches Option::Some(c) && c.0 == o.pending@[0].0 && c.1 == o.pending@[0].2
            && compiled_from(
            *c.2,
            o.pending@[0].1@,
            o.pending@[0].0@,
            opt_text(o.pending@[0].3),
            Option::None,
        ))) || (st is Fatal && o2.current is None))
    }
}

/// How an object answers its active child's transition: a validated child
/// submit is recorded present under the active property and the queue
/// advances; a cancel on a required property reports the property's name
/// and neither records nor advances; a cancel on an optional property
/// records an explicit absence and advances; every other child state
/// passes through with the stepped child kept.
pub open spec fn obj_trans(
    o: ObjectPrompt,
    name: String,
    req: bool,
    c2: Widget,
    cst: PromptState,
    o2: ObjectPrompt,
    st: PromptState,
) -> bool {
    &&& o2.message == o.message
    &&& o2.inited == o.inited
    &&& match cst {
        PromptState::Cancel => if req {
            st matches PromptState::Error(m) && m@ == name@ + " is required field"@
                && o2.collected@ == o.collected@ && o2.pending == o.pending && (
            o2.current matches Option::Some(c) && c.0 == name && c.1 == req && *c.2 == c2)
        } else {
            o2.collected@ == o.collected@.push((name, Option::None)) && obj_advanced(o, o2, st)
        },
        PromptState::Submit => if !valid_spec(c2) {
            st matches PromptState::Error(_) && o2.collected@ == o.collected@ && o2.pending
                == o.pending && (o2.current matches Option::Some(c) && c.0 == name && c.1 == req
                && *c.2 == c2)
        } else {
            o2.collected@.len() == o.collected@.len() + 1 && o2.collected@.subrange(
                0,
                o.collected@.len() as int,
            ) == o.collected@ && o2.collected@.last().0 == name && (
            o2.collected@.last().1 matches Option::Some(v) && v@ == submit_view(c2))
                && obj_advanced(o, o2, st)
        },
        _ => st == cst && o2.collected@ == o.collected@ && o2.pending == o.pending && (
        o2.current matches Option::Some(c) && c.0 == name && c.1 == req && *c.2 == c2),
    }
}

/// How a choice behaves before an alternative is picked: `Esc` cancels,
/// the vertical keys move the highlight, and `Enter` compiles the
/// highlighted alternative's widget (failing fatally when it cannot be
/// compiled or nothing is offered).
pub open spec fn choice_sel_trans(c: ChoicePrompt, e: Event, c2: ChoicePrompt, st: PromptState) -> bool {
    &&& c2.message == c.message
    &&& c2.hint == c.hint
    &&& c2.alts == c.alts
    &&& match e {
        Event::Esc => c2 == c && st is Cancel,
        Event::Up => st is Active && c2.inner is None && c2.index == if c.index > 0 {
            (c.index - 1) as usize
        } else {
            0usize
        },
        Event::Down => st is Active && c2.inner is None && c2.index == if c.index
            < c.alts@.len() && c.index + 1 < c.alts@.len() {
            (c.index + 1) as usize
        } else {
            c.index
        },
        Event::Enter => c2.index == c.index && if c.alts@.len() == 0 {
            st is Fatal && c2.inner is None
        } else {
            ((st is Active && (c2.inner matches Option::Some(nw) && compiled_from(
                *nw,
                norms_view(c.alts@)[c.index as int],
                c.message@,
                opt_text(c.hint),
                Option::None,
            ))) || (st is Fatal && c2.inner is None))
        },
        _ => c2 == c && st is Active,
    }
}

/// An array's step, quantified over its active child's own transition.
pub open spec fn arr_step_ex(
    a: ArrayPrompt,
    e: Event,
    child: Widget,
    a2: ArrayPrompt,
    st: PromptState,
) -> bool
    decreases child, 1int,
{
    exists|c2: Widget, cst: PromptState|
        step_rel(child, e, c2, cst) && #[trigger] arr_trans(a, c2, cst, a2, st)
}

/// An object's step, quantified over its active child's own transition.
pub open spec fn obj_step_ex(
    o: ObjectPrompt,
    name: String,
    req: bool,
    e: Event,
    child: Widget,
    o2: ObjectPrompt,
    st: PromptState,
) -> bool
    decreases child, 1int,
{
    exists|c2: Widget, cst: PromptState|
        step_rel(child, e, c2, cst) && #[trigger] obj_trans(o, name, req, c2, cst, o2, st)
}

/// The transition relation of one widget step: the leaves follow their own
/// step relations; control-C cancels a composite outright; a composite
/// otherwise hands the event to its active child and answers the child's
/// transition; a choice first selects, then delegates.
pub open spec fn step_rel(w: Widget, e: Event, w2: Widget, st: PromptState) -> bool
    decreases w, 0int,
{
    match w {
        Widget::Bool(b) => w2 matches Widget::Bool(b2) && b.handle_rel(e, b2, st),
        Widget::Text(t) => w2 matches Widget::Text(t2) && t.handle_rel(e, t2, st),
        Widget::Num(n) => w2 matches Widget::Num(n2) && n.handle_rel(e, n2, st),
        Widget::Sel(se) => w2 matches Widget::Sel(se2) && se.handle_rel(e, se2, st),
        Widget::DateSel(d) => w2 matches Widget::DateSel(d2) && d.handle_rel(e, d2, st),
        Widget::Arr(a) => if e is CtrlC {
            w2 == w && st is Cancel
        } else {
            match a.child {
                Option::Some(child) => w2 matches Widget::Arr(a2) && arr_step_ex(
                    a,
                    e,
                    *child,
                    a2,
                    st,
                ),
                Option::None => true,
            }
        },
        Widget::ObjW(o) => if e is CtrlC {
            w2 == w && st is Cancel
        } else {
            match o.current {
                Option::Some(cur) => w2 matches Widget::ObjW(o2) && obj_step_ex(
                    o,
                    cur.0,
                    cur.1,
                    e,
                    *cur.2,
                    o2,
                    st,
                ),
                Option::None => true,
            }
        },
        Widget::Alt(c) => if e is CtrlC {
            w2 == w && st is Cancel
        } else {
            match c.inner {
                Option::Some(b) => w2 matches Widget::Alt(c2) && c2.message == c.message
                    && c2.hint == c.hint && c2.alts == c.alts && c2.index == c.index && (
                c2.inner matches Option::Some(b2) && step_rel(*b, e, *b2, st)),
                Option::None => w2 matches Widget::Alt(c2) && choice_sel_trans(c, e, c2, st),
            }
        },
    }
}

/// One step of any widget's state machine. Control-C always cancels; the
/// composites delegate every other event to their active child and
/// interpret its terminal states: an array turns a child's cancellation
/// into its own completion and takes validated child values under its
/// uniqueness and size rules; an object stores validated values under the
/// active property and enforces required-ness on cancellation; a choice
/// first selects an alternative, then delegates to its widget.
#[verifier::loop_isolation(false)]
pub fn step(w: Widget, e: Event) -> (r: (Widget, PromptState))
    requires
        wf_widget(w),
        live_widget(w),
    ensures
        wf_widget(r.0),
        !(r.1 is Fatal) && !(r.1 is Submit) ==> live_widget(r.0),
        r.1 is Submit ==> submit_ready(r.0) && (live_widget(r.0) || finished_obj(r.0)),
        e is CtrlC ==> r.1 is Cancel,
        // The full transition relation: each result answers the active
        // child's own transition.
        step_rel(w, e, r.0, r.1),
        // The dispatch keeps the widget's kind; the leaf state machines
        // carry their own exact contracts.
        w matches Widget::Bool(b) ==> (r.0 matches Widget::Bool(b2) && b2.message == b.message),
        w matches Widget::Text(t) ==> (r.0 matches Widget::Text(t2) && t2.message == t.message
            && t2.facets == t.facets),
        w matches Widget::Num(n) ==> (r.0 matches Widget::Num(n2) && n2.message == n.message
            && n2.facets == n.facets && n2.integer == n.integer),
        w matches Widget::Sel(se) ==> (r.0 matches Widget::Sel(se2) && se2.message == se.message
            && se2.options == se.options),
        w matches Widget::DateSel(d) ==> (r.0 matches Widget::DateSel(d2) && d2.message
            == d.message),
        w matches Widget::Alt(c) ==> (r.0 matches Widget::Alt(c2) && c2.message == c.message
            && c2.alts == c.alts),
        // An array keeps its declaration; a rejection leaves its items
        // alone; any accepted value is appended under its size and
        // uniqueness rules.
        w matches Widget::Arr(a) ==> (r.0 matches Widget::Arr(a2) && a2.message == a.message
            && a2.item == a.item && a2.min_items == a.min_items && a2.max_items == a.max_items
            && a2.unique_items == a.unique_items && (r.1 is Error ==> a2.values@ == a.values@)
            && (a2.values@ != a.values@ ==> a2.values@.len() == a.values@.len() + 1
            && a2.values@.subrange(0, a.values@.len() as int) == a.values@ && (
        a.max_items matches Option::Some(max) ==> a.values@.len() < max) && (a.unique_items
            ==> forall|i: int|
            0 <= i < a.values@.len() ==> a.values@[i]@ != a2.values@.last()@))),
        // An object records values only under the active property, never
        // loses one, and a reported error neither records nor advances.
        w matches Widget::ObjW(o) ==> (r.0 matches Widget::ObjW(o2) && o2.message == o.message
            && o2.collected@.len() >= o.collected@.len() && o2.collected@.len() <= o.collected@.len()
            + 1 && o2.collected@.subrange(0, o.collected@.len() as int) == o.collected@ && (
        o2.collected@.len() == o.collected@.len() + 1 ==> (o.current matches Option::Some(c)
            && o2.collected@.last().0 == c.0)) && (r.1 is Error ==> o2.collected@ == o.collected@
            && o2.pending == o.pending && (o.current matches Option::Some(c)
            ==> o2.current matches Option::Some(c2) && c2.0 == c.0 && c2.1 == c.1))),
    decreases w,
{
    match w {
        Widget::Bool(b) => {
            let (b2, st) = b.handle(e);
            (Widget::Bool(b2), st)
        },
        Widget::Text(t) => {
            let (t2, st) = t.handle(e);
            (Widget::Text(t2), st)
        },
        Widget::Num(n) => {
            let (n2, st) = n.handle(e);
            (Widget::Num(n2), st)
        },
        Widget::Sel(s) => {
            let (s2, st) = s.handle(e);
            (Widget::Sel(s2), st)
        },
        Widget::DateSel(d) => {
            let (d2, st) = d.handle(e);
            (Widget::DateSel(d2), st)
        },
        Widget::Arr(a) => {
            if matches!(e, Event::CtrlC) {
                return (Widget::Arr(a), PromptState::Cancel);
            }
            let ghost a0 = a;
            let ArrayPrompt { message, item, min_items, max_items, unique_items, values, child } =
                a;
            let boxed = match child {
                Option::Some(b) => b,
                Option::None => {
                    // Unreachable: liveness owes an active child.
                    proof {
                        assert(false);
                    }
                    return (
                        Widget::Arr(ArrayPrompt {
                            message,
                            item,
                            min_items,
                            max_items,
                            unique_items,
                            values,
                            child: Option::None,
                        }),
                        PromptState::Active,
                    );
                },
            };
            let ghost child0 = *boxed;
            let (c2, st) = step(*boxed, e);
            let ghost c2g = c2;
            match st {
                PromptState::Submit => {
                    match widget_validate(&c2) {
                        Validation::Invalid(m) => {
                            let a2 = ArrayPrompt {
                                message,
                                item,
                                min_items,
                                max_items,
                                unique_items,
                                values,
                                child: Option::Some(Box::new(c2)),
                            };
                            let rst = PromptState::Error(m);
                            proof {
                                assert(arr_trans(a0, c2g, PromptState::Submit, a2, rst));
                                assert(arr_step_ex(a0, e, child0, a2, rst));
                            }
                            (Widget::Arr(a2), rst)
                        },
                        Validation::Valid => {
                            let v = widget_submit(&c2);
                            let a2 = ArrayPrompt {
                                message,
                                item,
                                min_items,
                                max_items,
                                unique_items,
                                values,
                                child: Option::Some(Box::new(c2)),
                            };
                            let (a3, err) = a2.accept(v);
                            match err {
                                Option::Some(m) => {
                                    // The rejected child has already submitted; a fresh
                                    // child is compiled for the same index.
                                    let node = match &a3.item {
                                        Option::Some(b) => b,
                                        Option::None => {
                                            let mut msg: Vec<char> = Vec::new();
                                            push_str_chars(&mut msg, "No items schema found");
                                            let rst = PromptState::Fatal(chars_to_string(&msg));
                                            proof {
                                                assert(arr_trans(
                                                    a0,
                                                    c2g,
                                                    PromptState::Submit,
                                                    a3,
                                                    rst,
                                                ));
                                                assert(arr_step_ex(a0, e, child0, a3, rst));
                                            }
                                            return (Widget::Arr(a3), rst);
                                        },
                                    };
                                    let msg2 = indexed_message(&a3.message, a3.values.len());
                                    match prompt_builder(&**node, msg2, Option::None, Option::None) {
                                        Result::Ok(nc) => {
                                            let a4 = ArrayPrompt {
                                                child: Option::Some(Box::new(nc)),
                                                ..a3
                                            };
                                            let rst = PromptState::Error(m);
                                            proof {
                                                assert(arr_trans(
                                                    a0,
                                                    c2g,
                                                    PromptState::Submit,
                                                    a4,
                                                    rst,
                                                ));
                                                assert(arr_step_ex(a0, e, child0, a4, rst));
                                            }
                                            (Widget::Arr(a4), rst)
                                        },
                                        Result::Err(f) => {
                                            let rst = PromptState::Fatal(f);
                                            proof {
                                                assert(arr_trans(
                                                    a0,
                                                    c2g,
                                                    PromptState::Submit,
                                                    a3,
                                                    rst,
                                                ));
                                                assert(arr_step_ex(a0, e, child0, a3, rst));
                                            }
                                            (Widget::Arr(a3), rst)
                                        },
                                    }
                                },
                                Option::None => {
                                    proof {
                                        assert(a3.values@.subrange(
                                            0,
                                            a0.values@.len() as int,
                                        ) =~= a0.values@);
                                    }
                                    // Compile a fresh child for the next index.
                                    let node = match &a3.item {
                                        Option::Some(b) => b,
                                        Option::None => {
                                            let mut msg: Vec<char> = Vec::new();
                                            push_str_chars(&mut msg, "No items schema found");
                                            let rst = PromptState::Fatal(chars_to_string(&msg));
                                            proof {
                                                assert(arr_trans(
                                                    a0,
                                                    c2g,
                                                    PromptState::Submit,
                                                    a3,
                                                    rst,
                                                ));
                                                assert(arr_step_ex(a0, e, child0, a3, rst));
                                            }
                                            return (Widget::Arr(a3), rst);
                                        },
                                    };
                                    let msg2 = indexed_message(&a3.message, a3.values.len());
                                    match prompt_builder(&**node, msg2, Option::None, Option::None) {
                                        Result::Ok(nc) => {
                                            let a4 = ArrayPrompt {
                                                child: Option::Some(Box::new(nc)),
                                                ..a3
                                            };
                                            proof {
                                                assert(arr_trans(
                                                    a0,
                                                    c2g,
                                                    PromptState::Submit,
                                                    a4,
                                                    PromptState::Active,
                                                ));
                                                assert(arr_step_ex(
                                                    a0,
                                                    e,
                                                    child0,
                                                    a4,
                                                    PromptState::Active,
                                                ));
                                            }
                                            (Widget::Arr(a4), PromptState::Active)
                                        },
                                        Result::Err(m) => {
                                            let rst = PromptState::Fatal(m);
                                            proof {
                                                assert(arr_trans(
                                                    a0,
                                                    c2g,
                                                    PromptState::Submit,
                                                    a3,
                                                    rst,
                                                ));
                                                assert(arr_step_ex(a0, e, child0, a3, rst));
                                            }
                                            (Widget::Arr(a3), rst)
                                        },
                                    }
                                },
                            }
                        },
                    }
                },
                PromptState::Cancel => {
                    // The user finished the array.
                    let a2 = ArrayPrompt {
                        message,
                        item,
                        min_items,
                        max_items,
                        unique_items,
                        values,
                        child: Option::Some(Box::new(c2)),
                    };
                    proof {
                        assert(arr_trans(a0, c2g, PromptState::Cancel, a2, PromptState::Submit));
                        assert(arr_step_ex(a0, e, child0, a2, PromptState::Submit));
                    }
                    (Widget::Arr(a2), PromptState::Submit)
                },
                st => {
                    let ghost cstg = st;
                    let a2 = ArrayPrompt {
                        message,
                        item,
                        min_items,
                        max_items,
                        unique_items,
                        values,
                        child: Option::Some(Box::new(c2)),
                    };
                    proof {
                        assert(arr_trans(a0, c2g, cstg, a2, cstg));
                        assert(arr_step_ex(a0, e, child0, a2, cstg));
                    }
                    (Widget::Arr(a2), st)
                },
            }
        },
        Widget::ObjW(o) => {
            if matches!(e, Event::CtrlC) {
                return (Widget::ObjW(o), PromptState::Cancel);
            }
            let ghost o0 = o;
            let ObjectPrompt { message, pending, current, collected, inited } = o;
            let (name, req, boxed) = match current {
                Option::Some(c) => c,
                Option::None => {
                    // Unreachable: liveness owes an active child.
                    proof {
                        assert(false);
                    }
                    return (
                        Widget::ObjW(ObjectPrompt {
                            message,
                            pending,
                            current: Option::None,
                            collected,
                            inited,
                        }),
                        PromptState::Active,
                    );
                },
            };
            let ghost child0 = *boxed;
            let ghost nameg = name;
            let ghost reqg = req;
            let (c2, st) = step(*boxed, e);
            let ghost c2g = c2;
            match st {
                PromptState::Submit => {
                    match widget_validate(&c2) {
                        Validation::Invalid(m) => {
                            let o2 = ObjectPrompt {
                                message,
                                pending,
                                current: Option::Some((name, req, Box::new(c2))),
                                collected,
                                inited,
                            };
                            let rst = PromptState::Error(m);
                            proof {
                                assert(obj_trans(o0, nameg, reqg, c2g, PromptState::Submit, o2, rst));
                                assert(obj_step_ex(o0, nameg, reqg, e, child0, o2, rst));
                            }
                            (Widget::ObjW(o2), rst)
                        },
                        Validation::Valid => {
                            let v = widget_submit(&c2);
                            let o2 = ObjectPrompt {
                                message,
                                pending,
                                current: Option::Some((name, req, Box::new(c2))),
                                collected,
                                inited,
                            };
                            let o3 = o2.accept(v);
                            let (w4, st4) = object_advance(o3);
                            proof {
                                assert(o3.collected@.subrange(0, o0.collected@.len() as int)
                                    =~= o0.collected@);
                                assert(o3.pending == o0.pending);
                                assert(w4 matches Widget::ObjW(o4) && obj_advanced(o0, o4, st4));
                                assert(w4 matches Widget::ObjW(o4) && obj_trans(
                                    o0,
                                    nameg,
                                    reqg,
                                    c2g,
                                    PromptState::Submit,
                                    o4,
                                    st4,
                                ));
                                assert(obj_step_ex(o0, nameg, reqg, e, child0, w4->ObjW_0, st4));
                            }
                            (w4, st4)
                        },
                    }
                },
                PromptState::Cancel => {
                    let o2 = ObjectPrompt {
                        message,
                        pending,
                        current: Option::Some((name, req, Box::new(c2))),
                        collected,
                        inited,
                    };
                    let (o3, err) = o2.cancel_current();
                    match err {
                        Option::Some(m) => {
                            let rst = PromptState::Error(m);
                            proof {
                                assert(obj_trans(o0, nameg, reqg, c2g, PromptState::Cancel, o3, rst));
                                assert(obj_step_ex(o0, nameg, reqg, e, child0, o3, rst));
                            }
                            (Widget::ObjW(o3), rst)
                        },
                        Option::None => {
                            let (w4, st4) = object_advance(o3);
                            proof {
                                assert(o3.pending == o0.pending);
                                assert(w4 matches Widget::ObjW(o4) && obj_advanced(o0, o4, st4));
                                assert(w4 matches Widget::ObjW(o4) && obj_trans(
                                    o0,
                                    nameg,
                                    reqg,
                                    c2g,
                                    PromptState::Cancel,
                                    o4,
                                    st4,
                                ));
                                assert(obj_step_ex(o0, nameg, reqg, e, child0, w4->ObjW_0, st4));
                            }
                            (w4, st4)
                        },
                    }
                },
                st => {
                    let ghost cstg = st;
                    let o2 = ObjectPrompt {
                        message,
                        pending,
                        current: Option::Some((name, req, Box::new(c2))),
                        collected,
                        inited,
                    };
                    proof {
                        assert(obj_trans(o0, nameg, reqg, c2g, cstg, o2, cstg));
                        assert(obj_step_ex(o0, nameg, reqg, e, child0, o2, cstg));
                    }
                    (Widget::ObjW(o2), st)
                },
            }
        },
        Widget::Alt(c) => {
            if matches!(e, Event::CtrlC) {
                return (Widget::Alt(c), PromptState::Cancel);
            }
            let ghost c0 = c;
            let ChoicePrompt { message, hint, alts, index, inner } = c;
            match inner {
                Option::Some(boxed) => {
                    let (b2, st) = step(*boxed, e);
                    (
                        Widget::Alt(ChoicePrompt {
                            message,
                            hint,
                            alts,
                            index,
                            inner: Option::Some(Box::new(b2)),
                        }),
                        st,
                    )
                },
                Option::None => {
                    match e {
                        Event::Esc => {
                            let c2 = ChoicePrompt {
                                message,
                                hint,
                                alts,
                                index,
                                inner: Option::None,
                            };
                            proof {
                                assert(choice_sel_trans(c0, e, c2, PromptState::Cancel));
                            }
                            (Widget::Alt(c2), PromptState::Cancel)
                        },
                        Event::Up => {
                            let index: usize = if index > 0 {
                                index - 1
                            } else {
                                0
                            };
                            let c2 = ChoicePrompt {
                                message,
                                hint,
                                alts,
                                index,
                                inner: Option::None,
                            };
                            proof {
                                assert(choice_sel_trans(c0, e, c2, PromptState::Active));
                            }
                            (Widget::Alt(c2), PromptState::Active)
                        },
                        Event::Down => {
                            let n = alts.len();
                            let index: usize = if index < n {
                                if index + 1 < n {
                                    index + 1
                                } else {
                                    index
                                }
                            } else {
                                index
                            };
                            let c2 = ChoicePrompt {
                                message,
                                hint,
                                alts,
                                index,
                                inner: Option::None,
                            };
                            proof {
                                assert(choice_sel_trans(c0, e, c2, PromptState::Active));
                            }
                            (Widget::Alt(c2), PromptState::Active)
                        },
                        Event::Enter => {
                            if alts.len() == 0 {
                                let mut msg: Vec<char> = Vec::new();
                                push_str_chars(&mut msg, "options cannot be empty.");
                                let c2 = ChoicePrompt {
                                    message,
                                    hint,
                                    alts,
                                    index,
                                    inner: Option::None,
                                };
                                let rst = PromptState::Fatal(chars_to_string(&msg));
                                proof {
                                    assert(choice_sel_trans(c0, e, c2, rst));
                                }
                                return (Widget::Alt(c2), rst);
                            }
                            proof {
                                lemma_norms_view(alts@);
                            }
                            let picked = &alts[index];
                            let msg2 = message.clone();
                            let hint2 = crate::schema::clone_opt_string(&hint);
                            match prompt_builder(picked, msg2, hint2, Option::None) {
                                Result::Ok(nw) => {
                                    let c2 = ChoicePrompt {
                                        message,
                                        hint,
                                        alts,
                                        index,
                                        inner: Option::Some(Box::new(nw)),
                                    };
                                    proof {
                                        assert(choice_sel_trans(c0, e, c2, PromptState::Active));
                                    }
                                    (Widget::Alt(c2), PromptState::Active)
                                },
                                Result::Err(m) => {
                                    let c2 = ChoicePrompt {
                                        message,
                                        hint,
                                        alts,
                                        index,
                                        inner: Option::None,
                                    };
                                    let rst = PromptState::Fatal(m);
                                    proof {
                                        assert(choice_sel_trans(c0, e, c2, rst));
                                    }
                                    (Widget::Alt(c2), rst)
                                },
                            }
                        },
                        _ => {
                            let c2 = ChoicePrompt {
                                message,
                                hint,
                                alts,
                                index,
                                inner: Option::None,
                            };
                            proof {
                                assert(choice_sel_trans(c0, e, c2, PromptState::Active));
                            }
                            (Widget::Alt(c2), PromptState::Active)
                        },
                    }
                },
            }
        },
    }
}

/// Brings the next queued property up, or reports the object finished.
fn object_advance(o: ObjectPrompt) -> (r: (Widget, PromptState))
    requires
        o.current is None,
    ensures
        wf_widget(r.0),
        !(r.1 is Fatal) && !(r.1 is Submit) ==> live_widget(r.0),
        r.1 is Submit ==> submit_ready(r.0) && finished_obj(r.0),
        !(r.1 is Cancel),
        !(r.1 is Error),
        r.0 matches Widget::ObjW(o2) && o2.message == o.message && o2.collected@ == o.collected@
            && o2.inited == o.inited && obj_advanced(o, o2, r.1),
{
    let ObjectPrompt { message, mut pending, current, collected, inited } = o;
    if pending.len() == 0 {
        return (
            Widget::ObjW(ObjectPrompt {
                message,
                pending,
                current: Option::None,
                collected,
                inited,
            }),
            PromptState::Submit,
        );
    }
    let head = pending.remove(0);
    proof {
        assert(pending@ =~= o.pending@.drop_first());
    }
    match prompt_builder(&head.1, head.0.clone(), crate::schema::clone_opt_string(&head.3), Option::None) {
        Result::Ok(c) => (
            Widget::ObjW(ObjectPrompt {
                message,
                pending,
                current: Option::Some((head.0, head.2, Box::new(c))),
                collected,
                inited,
            }),
            PromptState::Active,
        ),
        Result::Err(m) => (
            Widget::ObjW(ObjectPrompt {
                message,
                pending,
                current: Option::None,
                collected,
                inited,
            }),
            PromptState::Fatal(m),
        ),
    }
}

impl Skippable {
    /// One step of the wrapper: the skip event (`Esc`) is intercepted
    /// before the wrapped widget can see it and turns the interaction, at
    /// any point, into a submitted absence; every other event is handed
    /// to the wrapped widget unchanged.
    pub fn handle(self, e: Event) -> (r: (Skippable, PromptState))
        requires
            wf_widget(self.inner),
            live_widget(self.inner),
        ensures
            wf_widget(r.0.inner),
            e is Esc ==> r.0.skip && r.0.inner == self.inner && r.1 is Submit,
            !(e is Esc) ==> r.0.skip == self.skip,
            // Every other event is handed to the wrapped widget, whose
            // transition decides the result verbatim.
            !(e is Esc) ==> step_rel(self.inner, e, r.0.inner, r.1),
            !(e is Esc) && !(r.1 is Fatal) && !(r.1 is Submit) ==> live_widget(r.0.inner),
            !(e is Esc) && r.1 is Submit ==> submit_ready(r.0.inner) && (live_widget(r.0.inner)
                || finished_obj(r.0.inner)),
            e is CtrlC ==> r.1 is Cancel,
    {
        match e {
            Event::Esc => (Skippable { inner: self.inner, skip: true }, PromptState::Submit),
            _ => {
                let Skippable { inner, skip } = self;
                let (w2, st) = step(inner, e);
                (Skippable { inner: w2, skip }, st)
            },
        }
    }

    /// Checks the wrapped widget, unless the interaction was skipped:
    /// a skipped field is always acceptable.
    pub fn validate(&self) -> (r: Validation)
        requires
            wf_widget(self.inner),
        ensures
            self.skip ==> r is Valid,
            // An unskipped field validates exactly as the wrapped widget
            // does.
            !self.skip ==> (r is Valid <==> valid_spec(self.inner)),
            r is Valid ==> self.skip || value_ok(self.inner),
            !self.skip && finished_obj(self.inner) ==> r is Valid,
    {
        if self.skip {
            Validation::Valid
        } else {
            widget_validate(&self.inner)
        }
    }

    /// Extracts the outcome: a skipped interaction yields an absence, and
    /// the wrapped widget's submit operation is never consulted for it.
    pub fn submit(&self) -> (r: Option<Val>)
        requires
            self.skip || (wf_widget(self.inner) && submit_ready(self.inner) && value_ok(
                self.inner,
            )),
        ensures
            self.skip ==> r is None,
            !self.skip ==> (r matches Option::Some(v) && v@ == submit_view(self.inner)),
    {
        if self.skip {
            Option::None
        } else {
            Option::Some(widget_submit(&self.inner))
        }
    }
}


/// How one driving step answers the stepped widget's state: activity and
/// errors continue (the message surfaced), cancellation and fatal failures
/// pass up, and a submit offer yields the submitted value exactly when the
/// widget validates, re-entering the session with a message otherwise.
pub open spec fn drive_shape(w2: Widget, st: PromptState, r: DriveResult) -> bool {
    match st {
        PromptState::Active => r == DriveResult::Continue(w2, Option::<String>::None),
        PromptState::Error(m) => r == DriveResult::Continue(w2, Option::Some(m)),
        PromptState::Cancel => r is Cancelled,
        PromptState::Fatal(m) => r matches DriveResult::Aborted(m2) && m2 == m,
        PromptState::Submit => if valid_spec(w2) {
            r matches DriveResult::Done(v) && v@ == submit_view(w2)
        } else {
            r matches DriveResult::Continue(w2b, msg) && w2b == w2 && msg is Some
        },
    }
}

/// One driving step, quantified over the widget's own transition.
pub open spec fn drive_rel(w: Widget, e: Event, r: DriveResult) -> bool {
    exists|w2: Widget, st: PromptState| step_rel(w, e, w2, st) && #[trigger] drive_shape(w2, st, r)
}

/// What one driving step of a session produced.
pub enum DriveResult {
    /// The widget stays active; a message reports a failed validation or
    /// a recoverable error.
    Continue(Widget, Option<String>),
    /// The widget submitted this value.
    Done(Val),
    /// The user cancelled the whole interaction.
    Cancelled,
    /// An unrecoverable failure.
    Aborted(String),
}

/// Drives one event into a widget, as the session driver does: a submit
/// offer is validated, and only a validated offer yields the submitted
/// value; a failed validation re-enters the active state with the message
/// surfaced; cancellation and fatal failures are passed up.
pub fn drive_step(w: Widget, e: Event) -> (r: DriveResult)
    requires
        wf_widget(w),
        live_widget(w),
    ensures
        r matches DriveResult::Continue(w2, _) ==> wf_widget(w2) && live_widget(w2),
        e is CtrlC ==> r is Cancelled,
        drive_rel(w, e, r),
{
    let (w2, st) = step(w, e);
    let ghost w2g = w2;
    let ghost stg = st;
    match st {
        PromptState::Active => {
            let r = DriveResult::Continue(w2, Option::None);
            proof {
                assert(drive_shape(w2g, stg, r));
            }
            r
        },
        PromptState::Error(m) => {
            let r = DriveResult::Continue(w2, Option::Some(m));
            proof {
                assert(drive_shape(w2g, stg, r));
            }
            r
        },
        PromptState::Cancel => {
            let r = DriveResult::Cancelled;
            proof {
                assert(drive_shape(w2g, stg, r));
            }
            r
        },
        PromptState::Fatal(m) => {
            let r = DriveResult::Aborted(m);
            proof {
                assert(drive_shape(w2g, stg, r));
            }
            r
        },
        PromptState::Submit => {
            match widget_validate(&w2) {
                Validation::Invalid(m) => {
                    let r = DriveResult::Continue(w2, Option::Some(m));
                    proof {
                        assert(drive_shape(w2g, stg, r));
                    }
                    r
                },
                Validation::Valid => {
                    let r = DriveResult::Done(widget_submit(&w2));
                    proof {
                        assert(drive_shape(w2g, stg, r));
                    }
                    r
                },
            }
        },
    }
}


/// How one driving step of a skippable field answers the wrapped widget's
/// state: as `drive_shape`, except that a skipped field ends with an
/// absence whatever the wrapped widget holds.
pub open spec fn skip_shape(skip: bool, w2: Widget, st: PromptState, r: DriveSkipResult) -> bool {
    match st {
        PromptState::Active => r matches DriveSkipResult::Continue(s2, msg) && s2.inner == w2
            && s2.skip == skip && msg is None,
        PromptState::Error(m) => r matches DriveSkipResult::Continue(s2, msg) && s2.inner == w2
            && s2.skip == skip && msg == Option::Some(m),
        PromptState::Cancel => r is Cancelled,
        PromptState::Fatal(m) => r matches DriveSkipResult::Aborted(m2) && m2 == m,
        PromptState::Submit => if skip {
            r == DriveSkipResult::Done(Option::<Val>::None)
        } else if valid_spec(w2) {
            r matches DriveSkipResult::Done(v) && (v matches Option::Some(v2) && v2@
                == submit_view(w2))
        } else {
            r matches DriveSkipResult::Continue(s2, msg) && s2.inner == w2 && s2.skip == skip
                && msg is Some
        },
    }
}

/// One driving step of a skippable field, quantified over the wrapped
/// widget's own transition.
pub open spec fn drive_skip_rel(s: Skippable, e: Event, r: DriveSkipResult) -> bool {
    exists|w2: Widget, st: PromptState|
        step_rel(s.inner, e, w2, st) && #[trigger] skip_shape(s.skip, w2, st, r)
}

/// What one driving step of a skippable session produced.
pub enum DriveSkipResult {
    Continue(Skippable, Option<String>),
    /// The session ended: with a value, or with a recorded absence.
    Done(Option<Val>),
    Cancelled,
    Aborted(String),
}

/// Drives one event into a skippable field, as `drive_step` does; the
/// skip event ends the session with an absence.
pub fn drive_skippable_step(s: Skippable, e: Event) -> (r: DriveSkipResult)
    requires
        wf_widget(s.inner),
        live_widget(s.inner),
    ensures
        r matches DriveSkipResult::Continue(s2, _) ==> wf_widget(s2.inner) && live_widget(
            s2.inner,
        ),
        e is Esc ==> r == DriveSkipResult::Done(Option::<Val>::None),
        e is CtrlC ==> r is Cancelled,
        !(e is Esc) ==> drive_skip_rel(s, e, r),
{
    let (s2, st) = s.handle(e);
    let ghost w2g = s2.inner;
    let ghost stg = st;
    match st {
        PromptState::Active => {
            let r = DriveSkipResult::Continue(s2, Option::None);
            proof {
                if !(e is Esc) {
                    assert(skip_shape(s.skip, w2g, stg, r));
                }
            }
            r
        },
        PromptState::Error(m) => {
            let r = DriveSkipResult::Continue(s2, Option::Some(m));
            proof {
                if !(e is Esc) {
                    assert(skip_shape(s.skip, w2g, stg, r));
                }
            }
            r
        },
        PromptState::Cancel => {
            let r = DriveSkipResult::Cancelled;
            proof {
                if !(e is Esc) {
                    assert(skip_shape(s.skip, w2g, stg, r));
                }
            }
            r
        },
        PromptState::Fatal(m) => {
            let r = DriveSkipResult::Aborted(m);
            proof {
                if !(e is Esc) {
                    assert(skip_shape(s.skip, w2g, stg, r));
                }
            }
            r
        },
        PromptState::Submit => {
            match s2.validate() {
                Validation::Invalid(m) => {
                    let r = DriveSkipResult::Continue(s2, Option::Some(m));
                    proof {
                        if !(e is Esc) {
                            assert(skip_shape(s.skip, w2g, stg, r));
                        }
                    }
                    r
                },
                Validation::Valid => {
                    let r = DriveSkipResult::Done(s2.submit());
                    proof {
                        if !(e is Esc) {
                            assert(skip_shape(s.skip, w2g, stg, r));
                        }
                    }
                    r
                },
            }
        },
    }
}

} // verus!
