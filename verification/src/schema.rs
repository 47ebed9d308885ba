//! The schema normalizer: turns a resolved schema node into a normalized,
//! promptable type tree.
//!
//! Normalization is done in two phases, so that it stays a pure function:
//! phase one (`flat_schema`) expands composition operators into either a
//! structural merge (`allOf`) or a choice-annotated node (`oneOf`/`anyOf`)
//! carrying the normalized alternatives; phase two happens in the widget
//! layer, where a selection widget resolves each choice interactively.

use vstd::prelude::*;

use crate::document::{
    Document, ErrSpec, NumFacets, RefOr, Schema, SchemaError, SchemaKind, StrFormat, StringFacets,
    resolve_fuel, resolve_in, resolve_spec,
};
use vstd::pervasive::VecAdditionalExecFns;

verus! {

broadcast use vstd::std_specs::vec::group_vec_axioms, vstd::seq::group_seq_axioms;

/// The normalized facets of an array node: the normalized items node, if
/// one was declared, and the array-level constraints.
#[derive(Debug, PartialEq, Eq)]
pub struct ArrayNorm {
    pub item: Option<Box<SchemaType>>,
    pub min_items: Option<usize>,
    pub max_items: Option<usize>,
    pub unique_items: bool,
}

/// A normalized type-tree node. Object properties map each name to the
/// child node, whether the property is required, and its description, in
/// declaration order. A `Choice` node carries the normalized alternatives
/// of a `oneOf`/`anyOf` operator, to be resolved by a selection widget.
#[derive(Debug, PartialEq, Eq)]
pub enum SchemaType {
    Object(Vec<(String, (SchemaType, bool, Option<String>))>),
    Array(ArrayNorm),
    String(StringFacets),
    Number(NumFacets),
    Integer(NumFacets),
    Boolean,
    Choice(Vec<SchemaType>),
}

/// The mathematical shape of the string facets.
pub struct StrFacetsSpec {
    pub format: StrFormat,
    pub pattern: Option<Seq<char>>,
    pub enumeration: Seq<Seq<char>>,
    pub min_length: Option<usize>,
    pub max_length: Option<usize>,
}

/// The mathematical shape of the numeric facets.
pub struct NumFacetsSpec {
    pub multiple_of: Option<i64>,
    pub exclusive_minimum: bool,
    pub exclusive_maximum: bool,
    pub minimum: Option<i64>,
    pub maximum: Option<i64>,
    pub enumeration: Seq<i64>,
}

/// The mathematical shape of a normalized node. An array's `item` is a
/// sequence of at most one node: empty when the schema declared no items.
pub enum NormSpec {
    Object(Seq<(Seq<char>, NormSpec, bool, Option<Seq<char>>)>),
    Array { item: Seq<NormSpec>, min_items: Option<usize>, max_items: Option<usize>, unique_items: bool },
    String(StrFacetsSpec),
    Number(NumFacetsSpec),
    Integer(NumFacetsSpec),
    Boolean,
    Choice(Seq<NormSpec>),
}

/// The view of an optional descriptive string.
pub open spec fn opt_text(o: Option<String>) -> Option<Seq<char>> {
    match o {
        Option::Some(s) => Option::Some(s@),
        Option::None => Option::None,
    }
}

/// The views of a sequence of strings.
pub open spec fn strs_view(l: Seq<String>) -> Seq<Seq<char>>
    decreases l.len(),
{
    if l.len() == 0 {
        Seq::<Seq<char>>::empty()
    } else {
        strs_view(l.drop_last()).push(l.last()@)
    }
}


/// `strs_view` maps the sequence string by string.
pub proof fn lemma_strs_view(l: Seq<String>)
    ensures
        strs_view(l).len() == l.len(),
        forall|i: int| 0 <= i < l.len() ==> strs_view(l)[i] == l[i]@,
    decreases l.len(),
{
    if l.len() > 0 {
        lemma_strs_view(l.drop_last());
        assert(strs_view(l) == strs_view(l.drop_last()).push(l.last()@));
        assert forall|i: int| 0 <= i < l.len() implies strs_view(l)[i] == l[i]@ by {
            if i < l.len() - 1 {
                assert(l.drop_last()[i] == l[i]);
                assert(strs_view(l)[i] == strs_view(l.drop_last())[i]);
            } else {
                assert(l.last() == l[i]);
            }
        }
    }
}

/// The mathematical shape of declared string facets.
pub open spec fn str_facets_view(f: StringFacets) -> StrFacetsSpec {
    StrFacetsSpec {
        format: f.format,
        pattern: opt_text(f.pattern),
        enumeration: strs_view(f.enumeration@),
        min_length: f.min_length,
        max_length: f.max_length,
    }
}

/// The mathematical shape of declared numeric facets.
pub open spec fn num_facets_view(f: NumFacets) -> NumFacetsSpec {
    NumFacetsSpec {
        multiple_of: f.multiple_of,
        exclusive_minimum: f.exclusive_minimum,
        exclusive_maximum: f.exclusive_maximum,
        minimum: f.minimum,
        maximum: f.maximum,
        enumeration: f.enumeration@,
    }
}

/// The views of a sequence of normalized object properties.
pub open spec fn props_norm_view(l: Seq<(String, (SchemaType, bool, Option<String>))>) -> Seq<
    (Seq<char>, NormSpec, bool, Option<Seq<char>>),
>
    decreases l,
{
    if l.len() == 0 {
        Seq::<(Seq<char>, NormSpec, bool, Option<Seq<char>>)>::empty()
    } else {
        props_norm_view(l.drop_last()).push(
            (l.last().0@, l.last().1.0@, l.last().1.1, opt_text(l.last().1.2)),
        )
    }
}

/// The views of a sequence of normalized nodes.
pub open spec fn norms_view(l: Seq<SchemaType>) -> Seq<NormSpec>
    decreases l,
{
    if l.len() == 0 {
        Seq::<NormSpec>::empty()
    } else {
        norms_view(l.drop_last()).push(l.last()@)
    }
}

impl View for SchemaType {
    type V = NormSpec;

    open spec fn view(&self) -> NormSpec
        decreases self,
    {
        match self {
            SchemaType::Object(props) => NormSpec::Object(props_norm_view(props@)),
            SchemaType::Array(a) => NormSpec::Array {
                item: match &a.item {
                    Option::Some(b) => seq![(&**b)@],
                    Option::None => Seq::<NormSpec>::empty(),
                },
                min_items: a.min_items,
                max_items: a.max_items,
                unique_items: a.unique_items,
            },
            SchemaType::String(f) => NormSpec::String(str_facets_view(*f)),
            SchemaType::Number(f) => NormSpec::Number(num_facets_view(*f)),
            SchemaType::Integer(f) => NormSpec::Integer(num_facets_view(*f)),
            SchemaType::Boolean => NormSpec::Boolean,
            SchemaType::Choice(alts) => NormSpec::Choice(norms_view(alts@)),
        }
    }
}

/// `props_norm_view` maps the sequence property by property.
pub proof fn lemma_props_norm_view(l: Seq<(String, (SchemaType, bool, Option<String>))>)
    ensures
        props_norm_view(l).len() == l.len(),
        forall|i: int|
            0 <= i < l.len() ==> props_norm_view(l)[i] == (
                l[i].0@,
                l[i].1.0@,
                l[i].1.1,
                opt_text(l[i].1.2),
            ),
    decreases l.len(),
{
    if l.len() > 0 {
        lemma_props_norm_view(l.drop_last());
        assert(props_norm_view(l) == props_norm_view(l.drop_last()).push(
            (l.last().0@, l.last().1.0@, l.last().1.1, opt_text(l.last().1.2)),
        ));
        assert forall|i: int|
            0 <= i < l.len() implies props_norm_view(l)[i] == (
            l[i].0@,
            l[i].1.0@,
            l[i].1.1,
            opt_text(l[i].1.2),
        ) by {
            if i < l.len() - 1 {
                assert(l.drop_last()[i] == l[i]);
                assert(props_norm_view(l)[i] == props_norm_view(l.drop_last())[i]);
            } else {
                assert(l.last() == l[i]);
            }
        }
    }
}

/// `norms_view` maps the sequence node by node.
pub proof fn lemma_norms_view(l: Seq<SchemaType>)
    ensures
        norms_view(l).len() == l.len(),
        forall|i: int| 0 <= i < l.len() ==> norms_view(l)[i] == l[i]@,
    decreases l.len(),
{
    if l.len() > 0 {
        lemma_norms_view(l.drop_last());
        assert(norms_view(l) == norms_view(l.drop_last()).push(l.last()@));
        assert forall|i: int| 0 <= i < l.len() implies norms_view(l)[i] == l[i]@ by {
            if i < l.len() - 1 {
                assert(l.drop_last()[i] == l[i]);
                assert(norms_view(l)[i] == norms_view(l.drop_last())[i]);
            } else {
                assert(l.last() == l[i]);
            }
        }
    }
}

/// Whether one of the names is the given one.
pub open spec fn contains_name(names: Seq<String>, x: Seq<char>) -> bool {
    exists|j: int| 0 <= j < names.len() && names[j]@ == x
}

/// One property entry of a merged object node.
pub open spec fn upsert(
    acc: Seq<(Seq<char>, NormSpec, bool, Option<Seq<char>>)>,
    e: (Seq<char>, NormSpec, bool, Option<Seq<char>>),
) -> Seq<(Seq<char>, NormSpec, bool, Option<Seq<char>>)>
    decreases acc.len(),
{
    if acc.len() == 0 {
        seq![e]
    } else if acc[0].0 == e.0 {
        acc.update(0, e)
    } else {
        seq![acc[0]] + upsert(acc.drop_first(), e)
    }
}

/// The first `j` properties of `props` upserted into `acc`, in order.
pub open spec fn upsert_all(
    acc: Seq<(Seq<char>, NormSpec, bool, Option<Seq<char>>)>,
    props: Seq<(Seq<char>, NormSpec, bool, Option<Seq<char>>)>,
    j: int,
) -> Seq<(Seq<char>, NormSpec, bool, Option<Seq<char>>)>
    decreases j,
{
    if j <= 0 {
        acc
    } else if j > props.len() {
        upsert_all(acc, props, props.len() as int)
    } else {
        upsert(upsert_all(acc, props, j - 1), props[j - 1])
    }
}

/// The structural merge of the first `i` of the given normalized
/// alternatives: the object-tagged ones contribute their properties in
/// order, later alternatives overwriting earlier ones on name collision;
/// the others are dropped.
pub open spec fn merge_alts(alts: Seq<NormSpec>, i: int) -> Seq<
    (Seq<char>, NormSpec, bool, Option<Seq<char>>),
>
    decreases i,
{
    if i <= 0 {
        Seq::<(Seq<char>, NormSpec, bool, Option<Seq<char>>)>::empty()
    } else if i > alts.len() {
        merge_alts(alts, alts.len() as int)
    } else {
        match alts[i - 1] {
            NormSpec::Object(props) => upsert_all(merge_alts(alts, i - 1), props, props.len() as int),
            _ => merge_alts(alts, i - 1),
        }
    }
}

/// What normalizing a schema yields, at depth budget `fuel`: the normalized
/// node, the required flag handed in, and the node's description.
pub open spec fn flat_spec(
    schemas: Seq<(String, RefOr<Schema>)>,
    s: Schema,
    is_required: bool,
    fuel: nat,
) -> Result<(NormSpec, bool, Option<Seq<char>>), ErrSpec>
    decreases fuel, 2int, 0int,
{
    match s.kind {
        SchemaKind::Str(f) => Result::Ok(
            (NormSpec::String(str_facets_view(f)), is_required, opt_text(s.description)),
        ),
        SchemaKind::Num(f) => Result::Ok(
            (NormSpec::Number(num_facets_view(f)), is_required, opt_text(s.description)),
        ),
        SchemaKind::Int(f) => Result::Ok(
            (NormSpec::Integer(num_facets_view(f)), is_required, opt_text(s.description)),
        ),
        SchemaKind::Boolean => Result::Ok(
            (NormSpec::Boolean, is_required, opt_text(s.description)),
        ),
        SchemaKind::Object(of) => {
            match flat_props_spec(
                schemas,
                of.properties@,
                of.required@,
                of.properties@.len() as int,
                fuel,
            ) {
                Result::Ok(props) => Result::Ok(
                    (NormSpec::Object(props), is_required, opt_text(s.description)),
                ),
                Result::Err(e) => Result::Err(e),
            }
        },
        SchemaKind::Arr(af) => {
            match af.items {
                Option::None => Result::Ok(
                    (
                        NormSpec::Array {
                            item: Seq::<NormSpec>::empty(),
                            min_items: af.min_items,
                            max_items: af.max_items,
                            unique_items: af.unique_items,
                        },
                        is_required,
                        opt_text(s.description),
                    ),
                ),
                Option::Some(r) => {
                    if fuel == 0 {
                        Result::Err(ErrSpec::ReferenceCycle)
                    } else {
                        match resolve_spec(schemas, *r, resolve_fuel(schemas)) {
                            Result::Err(e) => Result::Err(e),
                            Result::Ok(child) => {
                                match flat_spec(schemas, child, is_required, (fuel - 1) as nat) {
                                    Result::Err(e) => Result::Err(e),
                                    Result::Ok(t) => Result::Ok(
                                        (
                                            NormSpec::Array {
                                                item: seq![t.0],
                                                min_items: af.min_items,
                                                max_items: af.max_items,
                                                unique_items: af.unique_items,
                                            },
                                            is_required,
                                            opt_text(s.description),
                                        ),
                                    ),
                                }
                            },
                        }
                    }
                },
            }
        },
        SchemaKind::OneOf(alts) => {
            match flat_alts_spec(schemas, alts@, is_required, alts@.len() as int, fuel) {
                Result::Ok(list) => Result::Ok(
                    (NormSpec::Choice(list), is_required, Option::None),
                ),
                Result::Err(e) => Result::Err(e),
            }
        },
        SchemaKind::AnyOf(alts) => {
            match flat_alts_spec(schemas, alts@, is_required, alts@.len() as int, fuel) {
                Result::Ok(list) => Result::Ok(
                    (NormSpec::Choice(list), is_required, Option::None),
                ),
                Result::Err(e) => Result::Err(e),
            }
        },
        SchemaKind::AllOf(alts) => {
            match flat_alts_spec(schemas, alts@, is_required, alts@.len() as int, fuel) {
                Result::Ok(list) => Result::Ok(
                    (
                        NormSpec::Object(merge_alts(list, list.len() as int)),
                        is_required,
                        Option::None,
                    ),
                ),
                Result::Err(e) => Result::Err(e),
            }
        },
        SchemaKind::Not => Result::Err(ErrSpec::UnsupportedSchema),
        SchemaKind::AnySchema => Result::Err(ErrSpec::UnsupportedSchema),
    }
}

/// The first `i` declared properties, each resolved and normalized with its
/// own membership in the parent's `required` list.
pub open spec fn flat_props_spec(
    schemas: Seq<(String, RefOr<Schema>)>,
    props: Seq<(String, RefOr<Schema>)>,
    required: Seq<String>,
    i: int,
    fuel: nat,
) -> Result<Seq<(Seq<char>, NormSpec, bool, Option<Seq<char>>)>, ErrSpec>
    decreases fuel, 1int, i,
{
    if i <= 0 {
        Result::Ok(Seq::<(Seq<char>, NormSpec, bool, Option<Seq<char>>)>::empty())
    } else if i > props.len() {
        flat_props_spec(schemas, props, required, props.len() as int, fuel)
    } else {
        match flat_props_spec(schemas, props, required, i - 1, fuel) {
            Result::Err(e) => Result::Err(e),
            Result::Ok(acc) => {
                let child_req = contains_name(required, props[i - 1].0@);
                if fuel == 0 {
                    Result::Err(ErrSpec::ReferenceCycle)
                } else {
                    match resolve_spec(schemas, props[i - 1].1, resolve_fuel(schemas)) {
                        Result::Err(e) => Result::Err(e),
                        Result::Ok(child) => {
                            match flat_spec(schemas, child, child_req, (fuel - 1) as nat) {
                                Result::Err(e) => Result::Err(e),
                                Result::Ok(t) => Result::Ok(
                                    acc.push((props[i - 1].0@, t.0, t.1, t.2)),
                                ),
                            }
                        },
                    }
                }
            },
        }
    }
}

/// The first `i` alternatives of a composition operator, each resolved and
/// normalized with the caller's required flag.
pub open spec fn flat_alts_spec(
    schemas: Seq<(String, RefOr<Schema>)>,
    alts: Seq<RefOr<Schema>>,
    is_required: bool,
    i: int,
    fuel: nat,
) -> Result<Seq<NormSpec>, ErrSpec>
    decreases fuel, 1int, i,
{
    if i <= 0 {
        Result::Ok(Seq::<NormSpec>::empty())
    } else if i > alts.len() {
        flat_alts_spec(schemas, alts, is_required, alts.len() as int, fuel)
    } else {
        match flat_alts_spec(schemas, alts, is_required, i - 1, fuel) {
            Result::Err(e) => Result::Err(e),
            Result::Ok(acc) => {
                if fuel == 0 {
                    Result::Err(ErrSpec::ReferenceCycle)
                } else {
                    match resolve_spec(schemas, alts[i - 1], resolve_fuel(schemas)) {
                        Result::Err(e) => Result::Err(e),
                        Result::Ok(child) => {
                            match flat_spec(schemas, child, is_required, (fuel - 1) as nat) {
                                Result::Err(e) => Result::Err(e),
                                Result::Ok(t) => Result::Ok(acc.push(t.0)),
                            }
                        },
                    }
                }
            },
        }
    }
}

/// `a + b`, held at the largest depth budget the engine grants.
pub open spec fn sat_add(a: int, b: int) -> int {
    if a + b > u64::MAX {
        u64::MAX as int
    } else {
        a + b
    }
}

/// The number of nodes of a schema tree, saturated.
pub open spec fn schema_size(s: Schema) -> int
    decreases s, 1int, 0int,
{
    match s.kind {
        SchemaKind::Str(_) => 1,
        SchemaKind::Num(_) => 1,
        SchemaKind::Int(_) => 1,
        SchemaKind::Boolean => 1,
        SchemaKind::Not => 1,
        SchemaKind::AnySchema => 1,
        SchemaKind::Object(of) => sat_add(
            1,
            props_size(of.properties@, of.properties@.len() as int),
        ),
        SchemaKind::Arr(af) => match af.items {
            Option::None => 1,
            Option::Some(b) => sat_add(1, ref_size(*b)),
        },
        SchemaKind::OneOf(alts) => sat_add(1, alts_size(alts@, alts@.len() as int)),
        SchemaKind::AnyOf(alts) => sat_add(1, alts_size(alts@, alts@.len() as int)),
        SchemaKind::AllOf(alts) => sat_add(1, alts_size(alts@, alts@.len() as int)),
    }
}

/// The number of nodes behind a reference-or-item: pointers count one.
pub open spec fn ref_size(r: RefOr<Schema>) -> int
    decreases r, 1int, 0int,
{
    match r {
        RefOr::Item(s) => sat_add(1, schema_size(s)),
        RefOr::Ref(_) => 1,
    }
}

/// The node count of the first `i` declared properties, saturated.
pub open spec fn props_size(l: Seq<(String, RefOr<Schema>)>, i: int) -> int
    decreases l, 0int, i,
{
    if i <= 0 {
        0
    } else if i > l.len() {
        props_size(l, l.len() as int)
    } else {
        sat_add(props_size(l, i - 1), ref_size(l[i - 1].1))
    }
}

/// The node count of the first `i` alternatives, saturated.
pub open spec fn alts_size(l: Seq<RefOr<Schema>>, i: int) -> int
    decreases l, 0int, i,
{
    if i <= 0 {
        0
    } else if i > l.len() {
        alts_size(l, l.len() as int)
    } else {
        sat_add(alts_size(l, i - 1), ref_size(l[i - 1]))
    }
}

/// The node count of the first `i` entries of the schema table, saturated.
pub open spec fn table_size(l: Seq<(String, RefOr<Schema>)>, i: int) -> int
    decreases i,
{
    if i <= 0 {
        0
    } else if i > l.len() {
        table_size(l, l.len() as int)
    } else {
        sat_add(table_size(l, i - 1), ref_size(l[i - 1].1))
    }
}

/// The depth budget normalization grants: more than any honest (cycle-free)
/// expansion of the schema against the table can need, since on one path a
/// named schema can recur only by referring back to itself.
pub open spec fn flat_fuel(schemas: Seq<(String, RefOr<Schema>)>, s: Schema) -> nat {
    sat_add(schema_size(s), table_size(schemas, schemas.len() as int)) as nat
}

#[verifier::loop_isolation(false)]
fn schema_size_exec(s: &Schema) -> (r: u64)
    ensures
        r as int == schema_size(*s),
    decreases s, 1int, 0int,
{
    match &s.kind {
        SchemaKind::Str(_) => 1,
        SchemaKind::Num(_) => 1,
        SchemaKind::Int(_) => 1,
        SchemaKind::Boolean => 1,
        SchemaKind::Not => 1,
        SchemaKind::AnySchema => 1,
        SchemaKind::Object(of) => {
            let mut acc: u64 = 0;
            let mut k: usize = 0;
            while k < of.properties.len()
                invariant
                    0 <= k <= of.properties@.len(),
                    acc as int == props_size(of.properties@, k as int),
                decreases of.properties@.len() - k,
            {
                proof {
                    assert(decreases_to!(*s => s.kind));
                    assert(decreases_to!(s.kind => *of));
                    assert(decreases_to!(*of => of.properties));
                    assert(decreases_to!(of.properties => of.properties[k as int]));
                    assert(decreases_to!(of.properties[k as int] => of.properties[k as int].1));
                }
                let rs = ref_size_exec(&of.properties[k].1);
                acc = acc.saturating_add(rs);
                k = k + 1;
            }
            1u64.saturating_add(acc)
        },
        SchemaKind::Arr(af) => {
            match &af.items {
                Option::None => 1,
                Option::Some(b) => {
                    let rs = ref_size_exec(&**b);
                    1u64.saturating_add(rs)
                },
            }
        },
        SchemaKind::OneOf(alts) => 1u64.saturating_add(alts_size_exec(alts)),
        SchemaKind::AnyOf(alts) => 1u64.saturating_add(alts_size_exec(alts)),
        SchemaKind::AllOf(alts) => 1u64.saturating_add(alts_size_exec(alts)),
    }
}

fn ref_size_exec(r: &RefOr<Schema>) -> (res: u64)
    ensures
        res as int == ref_size(*r),
    decreases r, 1int, 0int,
{
    match r {
        RefOr::Item(s) => 1u64.saturating_add(schema_size_exec(s)),
        RefOr::Ref(_) => 1,
    }
}

#[verifier::loop_isolation(false)]
fn alts_size_exec(alts: &Vec<RefOr<Schema>>) -> (res: u64)
    ensures
        res as int == alts_size(alts@, alts@.len() as int),
    decreases alts, 0int, 0int,
{
    let mut acc: u64 = 0;
    let mut k: usize = 0;
    while k < alts.len()
        invariant
            0 <= k <= alts@.len(),
            acc as int == alts_size(alts@, k as int),
        decreases alts@.len() - k,
    {
        proof {
            assert(decreases_to!(*alts => alts@[k as int]));
        }
        let rs = ref_size_exec(&alts[k]);
        acc = acc.saturating_add(rs);
        k = k + 1;
    }
    acc
}

fn table_size_exec(l: &Vec<(String, RefOr<Schema>)>) -> (res: u64)
    ensures
        res as int == table_size(l@, l@.len() as int),
{
    let mut acc: u64 = 0;
    let mut k: usize = 0;
    while k < l.len()
        invariant
            0 <= k <= l@.len(),
            acc as int == table_size(l@, k as int),
        decreases l@.len() - k,
    {
        let rs = ref_size_exec(&l[k].1);
        acc = acc.saturating_add(rs);
        k = k + 1;
    }
    acc
}

/// A copy of an optional descriptive string.
pub fn clone_opt_string(o: &Option<String>) -> (r: Option<String>)
    ensures
        r == *o,
{
    match o {
        Option::Some(s) => Option::Some(s.clone()),
        Option::None => Option::None,
    }
}

fn clone_string_vec(v: &Vec<String>) -> (r: Vec<String>)
    ensures
        r@ == v@,
{
    let mut out: Vec<String> = Vec::new();
    let mut k: usize = 0;
    while k < v.len()
        invariant
            0 <= k <= v@.len(),
            out@ == v@.subrange(0, k as int),
        decreases v@.len() - k,
    {
        out.push(v[k].clone());
        k = k + 1;
        assert(out@ =~= v@.subrange(0, k as int));
    }
    assert(v@.subrange(0, v@.len() as int) =~= v@);
    out
}

fn clone_i64_vec(v: &Vec<i64>) -> (r: Vec<i64>)
    ensures
        r@ == v@,
{
    let mut out: Vec<i64> = Vec::new();
    let mut k: usize = 0;
    while k < v.len()
        invariant
            0 <= k <= v@.len(),
            out@ == v@.subrange(0, k as int),
        decreases v@.len() - k,
    {
        out.push(v[k]);
        k = k + 1;
        assert(out@ =~= v@.subrange(0, k as int));
    }
    assert(v@.subrange(0, v@.len() as int) =~= v@);
    out
}

/// A copy of string facets, equal view for view.
pub fn clone_str_facets(f: &StringFacets) -> (r: StringFacets)
    ensures
        str_facets_view(r) == str_facets_view(*f),
{
    StringFacets {
        format: f.format,
        pattern: clone_opt_string(&f.pattern),
        enumeration: clone_string_vec(&f.enumeration),
        min_length: f.min_length,
        max_length: f.max_length,
    }
}

/// A copy of numeric facets, equal view for view.
pub fn clone_num_facets(f: &NumFacets) -> (r: NumFacets)
    ensures
        num_facets_view(r) == num_facets_view(*f),
{
    NumFacets {
        multiple_of: f.multiple_of,
        exclusive_minimum: f.exclusive_minimum,
        exclusive_maximum: f.exclusive_maximum,
        minimum: f.minimum,
        maximum: f.maximum,
        enumeration: clone_i64_vec(&f.enumeration),
    }
}

/// Whether `x` is one of the names.
fn contains_name_exec(names: &Vec<String>, x: &String) -> (r: bool)
    ensures
        r == contains_name(names@, x@),
{
    let mut j: usize = 0;
    while j < names.len()
        invariant
            0 <= j <= names@.len(),
            forall|i: int| 0 <= i < j ==> names@[i]@ != x@,
        decreases names@.len() - j,
    {
        if names[j].eq(x) {
            return true;
        }
        j = j + 1;
    }
    false
}

/// An upsert with a match at position `i` updates that entry in place.
proof fn lemma_upsert_found(
    acc: Seq<(Seq<char>, NormSpec, bool, Option<Seq<char>>)>,
    e: (Seq<char>, NormSpec, bool, Option<Seq<char>>),
    i: int,
)
    requires
        0 <= i < acc.len(),
        acc[i].0 == e.0,
        forall|j: int| 0 <= j < i ==> acc[j].0 != e.0,
    ensures
        upsert(acc, e) == acc.update(i, e),
    decreases i,
{
    if i == 0 {
    } else {
        assert(forall|j: int| 0 <= j < i - 1 ==> acc.drop_first()[j] == acc[j + 1]);
        lemma_upsert_found(acc.drop_first(), e, i - 1);
        assert(seq![acc[0]] + acc.drop_first().update(i - 1, e) =~= acc.update(i, e));
    }
}

/// An upsert with no matching name appends the entry.
proof fn lemma_upsert_missing(
    acc: Seq<(Seq<char>, NormSpec, bool, Option<Seq<char>>)>,
    e: (Seq<char>, NormSpec, bool, Option<Seq<char>>),
)
    requires
        forall|j: int| 0 <= j < acc.len() ==> acc[j].0 != e.0,
    ensures
        upsert(acc, e) == acc.push(e),
    decreases acc.len(),
{
    if acc.len() == 0 {
        assert(upsert(acc, e) =~= acc.push(e));
    } else {
        assert(forall|j: int| 0 <= j < acc.drop_first().len() ==> acc.drop_first()[j] == acc[j + 1]);
        lemma_upsert_missing(acc.drop_first(), e);
        assert(seq![acc[0]] + acc.drop_first().push(e) =~= acc.push(e));
    }
}

/// Inserts a property into a merged object node: on a name collision the
/// new entry replaces the old one in place, otherwise it is appended.
#[verifier::loop_isolation(false)]
fn upsert_exec(
    acc: &mut Vec<(String, (SchemaType, bool, Option<String>))>,
    name: String,
    v: (SchemaType, bool, Option<String>),
)
    ensures
        props_norm_view(final(acc)@) == upsert(
            props_norm_view(old(acc)@),
            (name@, v.0@, v.1, opt_text(v.2)),
        ),
{
    proof {
        lemma_props_norm_view(acc@);
    }
    let ghost e = (name@, v.0@, v.1, opt_text(v.2));
    let mut i: usize = 0;
    while i < acc.len()
        invariant
            0 <= i <= acc@.len(),
            acc@ == old(acc)@,
            props_norm_view(acc@).len() == acc@.len(),
            forall|j: int|
                0 <= j < acc@.len() ==> props_norm_view(acc@)[j] == (
                    acc@[j].0@,
                    acc@[j].1.0@,
                    acc@[j].1.1,
                    opt_text(acc@[j].1.2),
                ),
            forall|j: int| 0 <= j < i ==> acc@[j].0@ != name@,
        decreases acc@.len() - i,
    {
        if acc[i].0.eq(&name) {
            proof {
                assert(forall|j: int|
                    0 <= j < i ==> props_norm_view(acc@)[j].0 != e.0);
                lemma_upsert_found(props_norm_view(acc@), e, i as int);
            }
            acc.set(i, (name, v));
            proof {
                lemma_props_norm_view(acc@);
                assert(acc@ == old(acc)@.update(i as int, (name, v)));
                assert(props_norm_view(acc@) =~= props_norm_view(old(acc)@).update(i as int, e));
            }
            return;
        }
        i = i + 1;
    }
    proof {
        assert(forall|j: int|
            0 <= j < acc@.len() ==> props_norm_view(acc@)[j].0 != e.0);
        lemma_upsert_missing(props_norm_view(acc@), e);
    }
    acc.push((name, v));
    proof {
        lemma_props_norm_view(acc@);
        assert(acc@ == old(acc)@.push((name, v)));
        assert(props_norm_view(acc@) =~= props_norm_view(old(acc)@).push(e));
    }
}

/// An error anywhere in a property prefix decides the whole prefix fold.
proof fn lemma_flat_props_err_mono(
    schemas: Seq<(String, RefOr<Schema>)>,
    props: Seq<(String, RefOr<Schema>)>,
    required: Seq<String>,
    i: int,
    j: int,
    fuel: nat,
)
    requires
        0 <= i <= j <= props.len(),
        flat_props_spec(schemas, props, required, i, fuel) is Err,
    ensures
        flat_props_spec(schemas, props, required, j, fuel) == flat_props_spec(
            schemas,
            props,
            required,
            i,
            fuel,
        ),
    decreases j - i,
{
    if j > i {
        lemma_flat_props_err_mono(schemas, props, required, i, j - 1, fuel);
    }
}

/// An error anywhere in an alternative prefix decides the whole prefix fold.
proof fn lemma_flat_alts_err_mono(
    schemas: Seq<(String, RefOr<Schema>)>,
    alts: Seq<RefOr<Schema>>,
    is_required: bool,
    i: int,
    j: int,
    fuel: nat,
)
    requires
        0 <= i <= j <= alts.len(),
        flat_alts_spec(schemas, alts, is_required, i, fuel) is Err,
    ensures
        flat_alts_spec(schemas, alts, is_required, j, fuel) == flat_alts_spec(
            schemas,
            alts,
            is_required,
            i,
            fuel,
        ),
    decreases j - i,
{
    if j > i {
        lemma_flat_alts_err_mono(schemas, alts, is_required, i, j - 1, fuel);
    }
}

/// Normalizes a resolved schema node at the given depth budget.
#[verifier::loop_isolation(false)]
fn flat_at(
    schemas: &Vec<(String, RefOr<Schema>)>,
    s: &Schema,
    is_required: bool,
    fuel: u64,
) -> (res: Result<(SchemaType, bool, Option<String>), SchemaError>)
    ensures
        match res {
            Result::Ok(t) => flat_spec(schemas@, *s, is_required, fuel as nat) == Result::Ok::<
                (NormSpec, bool, Option<Seq<char>>),
                ErrSpec,
            >((t.0@, t.1, opt_text(t.2))),
            Result::Err(e) => flat_spec(schemas@, *s, is_required, fuel as nat) == Result::Err::<
                (NormSpec, bool, Option<Seq<char>>),
                ErrSpec,
            >(e@),
        },
    decreases fuel,
{
    match &s.kind {
        SchemaKind::Str(f) => Result::Ok(
            (SchemaType::String(clone_str_facets(f)), is_required, clone_opt_string(&s.description)),
        ),
        SchemaKind::Num(f) => Result::Ok(
            (SchemaType::Number(clone_num_facets(f)), is_required, clone_opt_string(&s.description)),
        ),
        SchemaKind::Int(f) => Result::Ok(
            (
                SchemaType::Integer(clone_num_facets(f)),
                is_required,
                clone_opt_string(&s.description),
            ),
        ),
        SchemaKind::Boolean => Result::Ok(
            (SchemaType::Boolean, is_required, clone_opt_string(&s.description)),
        ),
        SchemaKind::Object(of) => {
            let mut out: Vec<(String, (SchemaType, bool, Option<String>))> = Vec::new();
            let mut k: usize = 0;
            while k < of.properties.len()
                invariant
                    0 <= k <= of.properties@.len(),
                    flat_props_spec(schemas@, of.properties@, of.required@, k as int, fuel as nat)
                        == Result::Ok::<
                        Seq<(Seq<char>, NormSpec, bool, Option<Seq<char>>)>,
                        ErrSpec,
                    >(props_norm_view(out@)),
                decreases of.properties@.len() - k,
            {
                let name = &of.properties[k].0;
                let child_req = contains_name_exec(&of.required, name);
                if fuel == 0 {
                    proof {
                        lemma_flat_props_err_mono(
                            schemas@,
                            of.properties@,
                            of.required@,
                            k as int + 1,
                            of.properties@.len() as int,
                            fuel as nat,
                        );
                    }
                    return Result::Err(SchemaError::ReferenceCycle);
                }
                let child = match resolve_in(schemas, &of.properties[k].1) {
                    Result::Ok(c) => c,
                    Result::Err(e) => {
                        proof {
                            lemma_flat_props_err_mono(
                                schemas@,
                                of.properties@,
                                of.required@,
                                k as int + 1,
                                of.properties@.len() as int,
                                fuel as nat,
                            );
                        }
                        return Result::Err(e);
                    },
                };
                proof {
                    assert(decreases_to!(*s => s.kind));
                }
                let t = match flat_at(schemas, child, child_req, fuel - 1) {
                    Result::Ok(t) => t,
                    Result::Err(e) => {
                        proof {
                            lemma_flat_props_err_mono(
                                schemas@,
                                of.properties@,
                                of.required@,
                                k as int + 1,
                                of.properties@.len() as int,
                                fuel as nat,
                            );
                        }
                        return Result::Err(e);
                    },
                };
                let ghost pre = out@;
                let ghost before = props_norm_view(out@);
                out.push((name.clone(), t));
                k = k + 1;
                proof {
                    assert(out@.drop_last() =~= pre);
                    assert(props_norm_view(out@) == before.push(
                        (out@.last().0@, out@.last().1.0@, out@.last().1.1, opt_text(
                            out@.last().1.2,
                        )),
                    ));
                }
            }
            Result::Ok(
                (SchemaType::Object(out), is_required, clone_opt_string(&s.description)),
            )
        },
        SchemaKind::Arr(af) => {
            match &af.items {
                Option::None => Result::Ok(
                    (
                        SchemaType::Array(
                            ArrayNorm {
                                item: Option::None,
                                min_items: af.min_items,
                                max_items: af.max_items,
                                unique_items: af.unique_items,
                            },
                        ),
                        is_required,
                        clone_opt_string(&s.description),
                    ),
                ),
                Option::Some(b) => {
                    if fuel == 0 {
                        return Result::Err(SchemaError::ReferenceCycle);
                    }
                    let child = match resolve_in(schemas, &**b) {
                        Result::Ok(c) => c,
                        Result::Err(e) => {
                            return Result::Err(e);
                        },
                    };
                    match flat_at(schemas, child, is_required, fuel - 1) {
                        Result::Err(e) => Result::Err(e),
                        Result::Ok(t) => Result::Ok(
                            (
                                SchemaType::Array(
                                    ArrayNorm {
                                        item: Option::Some(Box::new(t.0)),
                                        min_items: af.min_items,
                                        max_items: af.max_items,
                                        unique_items: af.unique_items,
                                    },
                                ),
                                is_required,
                                clone_opt_string(&s.description),
                            ),
                        ),
                    }
                },
            }
        },
        SchemaKind::OneOf(alts) => {
            match flat_alts_exec(schemas, alts, is_required, fuel) {
                Result::Err(e) => Result::Err(e),
                Result::Ok(list) => Result::Ok(
                    (SchemaType::Choice(list), is_required, Option::None),
                ),
            }
        },
        SchemaKind::AnyOf(alts) => {
            match flat_alts_exec(schemas, alts, is_required, fuel) {
                Result::Err(e) => Result::Err(e),
                Result::Ok(list) => Result::Ok(
                    (SchemaType::Choice(list), is_required, Option::None),
                ),
            }
        },
        SchemaKind::AllOf(alts) => {
            let mut list = match flat_alts_exec(schemas, alts, is_required, fuel) {
                Result::Err(e) => {
                    return Result::Err(e);
                },
                Result::Ok(list) => list,
            };
            let ghost full = norms_view(list@);
            proof {
                lemma_norms_view(list@);
            }
            let mut merged: Vec<(String, (SchemaType, bool, Option<String>))> = Vec::new();
            let mut c: usize = 0;
            let total = list.len();
            while c < total
                invariant
                    0 <= c <= full.len(),
                    total == full.len(),
                    list@.len() == full.len() - c,
                    forall|j: int| 0 <= j < list@.len() ==> list@[j]@ == full[j + c],
                    props_norm_view(merged@) == merge_alts(full, c as int),
                decreases total - c,
            {
                let node = list.remove(0);
                assert(node@ == full[c as int]);
                match node {
                    SchemaType::Object(mut props) => {
                        let ghost pview = props_norm_view(props@);
                        proof {
                            lemma_props_norm_view(props@);
                            assert(NormSpec::Object(pview) == full[c as int]);
                        }
                        let mut used: usize = 0;
                        let ptotal = props.len();
                        while used < ptotal
                            invariant
                                0 <= used <= pview.len(),
                                ptotal == pview.len(),
                                props@.len() == pview.len() - used,
                                forall|j: int|
                                    0 <= j < props@.len() ==> (
                                        props@[j].0@,
                                        props@[j].1.0@,
                                        props@[j].1.1,
                                        opt_text(props@[j].1.2),
                                    ) == pview[j + used],
                                props_norm_view(merged@) == upsert_all(
                                    merge_alts(full, c as int),
                                    pview,
                                    used as int,
                                ),
                            decreases ptotal - used,
                        {
                            let (pname, pv) = props.remove(0);
                            proof {
                                assert((pname@, pv.0@, pv.1, opt_text(pv.2)) == pview[used as int]);
                            }
                            upsert_exec(&mut merged, pname, pv);
                            used = used + 1;
                            proof {
                                assert(forall|j: int|
                                    0 <= j < props@.len() ==> (
                                        props@[j].0@,
                                        props@[j].1.0@,
                                        props@[j].1.1,
                                        opt_text(props@[j].1.2),
                                    ) == pview[j + used]);
                            }
                        }
                        proof {
                            assert(props_norm_view(merged@) == merge_alts(full, c as int + 1));
                        }
                    },
                    _ => {
                        proof {
                            assert(props_norm_view(merged@) == merge_alts(full, c as int + 1));
                        }
                    },
                }
                c = c + 1;
                proof {
                    assert(forall|j: int| 0 <= j < list@.len() ==> list@[j]@ == full[j + c]);
                }
            }
            proof {
                assert(merge_alts(full, full.len() as int) == props_norm_view(merged@));
            }
            Result::Ok((SchemaType::Object(merged), is_required, Option::None))
        },
        SchemaKind::Not => Result::Err(SchemaError::UnsupportedSchema),
        SchemaKind::AnySchema => Result::Err(SchemaError::UnsupportedSchema),
    }
}

/// Normalizes each alternative of a composition operator in order.
#[verifier::loop_isolation(false)]
fn flat_alts_exec(
    schemas: &Vec<(String, RefOr<Schema>)>,
    alts: &Vec<RefOr<Schema>>,
    is_required: bool,
    fuel: u64,
) -> (res: Result<Vec<SchemaType>, SchemaError>)
    ensures
        match res {
            Result::Ok(list) => flat_alts_spec(
                schemas@,
                alts@,
                is_required,
                alts@.len() as int,
                fuel as nat,
            ) == Result::Ok::<Seq<NormSpec>, ErrSpec>(norms_view(list@)),
            Result::Err(e) => flat_alts_spec(
                schemas@,
                alts@,
                is_required,
                alts@.len() as int,
                fuel as nat,
            ) == Result::Err::<Seq<NormSpec>, ErrSpec>(e@),
        },
    decreases fuel, 0int,
{
    let mut out: Vec<SchemaType> = Vec::new();
    let mut k: usize = 0;
    while k < alts.len()
        invariant
            0 <= k <= alts@.len(),
            flat_alts_spec(schemas@, alts@, is_required, k as int, fuel as nat) == Result::Ok::<
                Seq<NormSpec>,
                ErrSpec,
            >(norms_view(out@)),
        decreases alts@.len() - k,
    {
        if fuel == 0 {
            proof {
                lemma_flat_alts_err_mono(
                    schemas@,
                    alts@,
                    is_required,
                    k as int + 1,
                    alts@.len() as int,
                    fuel as nat,
                );
            }
            return Result::Err(SchemaError::ReferenceCycle);
        }
        let child = match resolve_in(schemas, &alts[k]) {
            Result::Ok(c) => c,
            Result::Err(e) => {
                proof {
                    lemma_flat_alts_err_mono(
                        schemas@,
                        alts@,
                        is_required,
                        k as int + 1,
                        alts@.len() as int,
                        fuel as nat,
                    );
                }
                return Result::Err(e);
            },
        };
        let t = match flat_at(schemas, child, is_required, fuel - 1) {
            Result::Ok(t) => t,
            Result::Err(e) => {
                proof {
                    lemma_flat_alts_err_mono(
                        schemas@,
                        alts@,
                        is_required,
                        k as int + 1,
                        alts@.len() as int,
                        fuel as nat,
                    );
                }
                return Result::Err(e);
            },
        };
        let ghost pre = out@;
        let ghost before = norms_view(out@);
        out.push(t.0);
        k = k + 1;
        proof {
            assert(out@.drop_last() =~= pre);
            assert(norms_view(out@) == before.push(out@.last()@));
        }
    }
    Result::Ok(out)
}

/// Normalizes a schema against the document: primitive kinds map to their
/// tag with facets and description carried over; object properties are
/// resolved and normalized each under its own membership in `required`;
/// array items are normalized with the caller's flag; `oneOf`/`anyOf`
/// become a `Choice` over the normalized alternatives; `allOf` becomes the
/// structural merge of its object-tagged alternatives; `not` and untyped
/// schemas are refused.
pub fn flat_schema(schema: &Schema, doc: &Document, is_required: bool) -> (res: Result<
    (SchemaType, bool, Option<String>),
    SchemaError,
>)
    ensures
        match res {
            Result::Ok(t) => flat_spec(
                doc.schemas@,
                *schema,
                is_required,
                flat_fuel(doc.schemas@, *schema),
            ) == Result::Ok::<(NormSpec, bool, Option<Seq<char>>), ErrSpec>(
                (t.0@, t.1, opt_text(t.2)),
            ),
            Result::Err(e) => flat_spec(
                doc.schemas@,
                *schema,
                is_required,
                flat_fuel(doc.schemas@, *schema),
            ) == Result::Err::<(NormSpec, bool, Option<Seq<char>>), ErrSpec>(e@),
        },
{
    let own = schema_size_exec(schema);
    let tab = table_size_exec(&doc.schemas);
    let fuel = own.saturating_add(tab);
    proof {
        assert(fuel as nat == flat_fuel(doc.schemas@, *schema));
    }
    flat_at(&doc.schemas, schema, is_required, fuel)
}

/// Whether no two properties share a name.
pub open spec fn distinct_keys(props: Seq<(Seq<char>, NormSpec, bool, Option<Seq<char>>)>) -> bool {
    forall|i: int, j: int| 0 <= i < j < props.len() ==> props[i].0 != props[j].0
}

/// The first property of the given name, if any.
pub open spec fn prop_lookup(
    props: Seq<(Seq<char>, NormSpec, bool, Option<Seq<char>>)>,
    name: Seq<char>,
) -> Option<(Seq<char>, NormSpec, bool, Option<Seq<char>>)>
    decreases props.len(),
{
    if props.len() == 0 {
        Option::None
    } else if props[0].0 == name {
        Option::Some(props[0])
    } else {
        prop_lookup(props.drop_first(), name)
    }
}

/// Normalization is deterministic: two results obtained from the same
/// schema, document and required flag are identical, tag and facets alike.
pub proof fn lemma_flat_schema_deterministic(
    schemas: Seq<(String, RefOr<Schema>)>,
    s: Schema,
    is_required: bool,
    r1: Result<(NormSpec, bool, Option<Seq<char>>), ErrSpec>,
    r2: Result<(NormSpec, bool, Option<Seq<char>>), ErrSpec>,
)
    requires
        r1 == flat_spec(schemas, s, is_required, flat_fuel(schemas, s)),
        r2 == flat_spec(schemas, s, is_required, flat_fuel(schemas, s)),
    ensures
        r1 == r2,
{
}

/// Upserting a batch of properties whose names are fresh and pairwise
/// distinct appends them in order.
proof fn lemma_upsert_all_fresh(
    acc: Seq<(Seq<char>, NormSpec, bool, Option<Seq<char>>)>,
    props: Seq<(Seq<char>, NormSpec, bool, Option<Seq<char>>)>,
    n: int,
)
    requires
        0 <= n <= props.len(),
        distinct_keys(props),
        forall|i: int, j: int|
            0 <= i < acc.len() && 0 <= j < props.len() ==> acc[i].0 != props[j].0,
    ensures
        upsert_all(acc, props, n) == acc + props.subrange(0, n),
    decreases n,
{
    if n <= 0 {
        assert(acc + props.subrange(0, 0) =~= acc);
    } else {
        lemma_upsert_all_fresh(acc, props, n - 1);
        let prev = acc + props.subrange(0, n - 1);
        assert(forall|j: int| 0 <= j < prev.len() ==> prev[j].0 != props[n - 1].0);
        lemma_upsert_missing(prev, props[n - 1]);
        assert(prev.push(props[n - 1]) =~= acc + props.subrange(0, n));
    }
}

/// The structural merge of two object alternatives with disjoint property
/// names is the concatenation of their property lists: the union of both
/// property sets, each name keeping its own child node, required flag and
/// description.
pub proof fn lemma_all_of_merge_disjoint(
    a: Seq<(Seq<char>, NormSpec, bool, Option<Seq<char>>)>,
    b: Seq<(Seq<char>, NormSpec, bool, Option<Seq<char>>)>,
)
    requires
        distinct_keys(a),
        distinct_keys(b),
        forall|i: int, j: int| 0 <= i < a.len() && 0 <= j < b.len() ==> a[i].0 != b[j].0,
    ensures
        merge_alts(seq![NormSpec::Object(a), NormSpec::Object(b)], 2) == a + b,
{
    let alts = seq![NormSpec::Object(a), NormSpec::Object(b)];
    assert(merge_alts(alts, 0) =~= Seq::<(Seq<char>, NormSpec, bool, Option<Seq<char>>)>::empty());
    lemma_upsert_all_fresh(merge_alts(alts, 0), a, a.len() as int);
    assert(merge_alts(alts, 1) =~= a) by {
        assert(alts[0] == NormSpec::Object(a));
        assert(merge_alts(alts, 0) + a.subrange(0, a.len() as int) =~= a);
    }
    lemma_upsert_all_fresh(a, b, b.len() as int);
    assert(alts[1] == NormSpec::Object(b));
    assert(merge_alts(alts, 2) == upsert_all(merge_alts(alts, 1), b, b.len() as int));
    assert(upsert_all(a, b, b.len() as int) == a + b.subrange(0, b.len() as int));
    assert(a + b.subrange(0, b.len() as int) =~= a + b);
}

/// An upsert makes its own entry the one found under its name.
proof fn lemma_upsert_lookup_hit(
    acc: Seq<(Seq<char>, NormSpec, bool, Option<Seq<char>>)>,
    e: (Seq<char>, NormSpec, bool, Option<Seq<char>>),
)
    ensures
        prop_lookup(upsert(acc, e), e.0) == Option::Some(e),
    decreases acc.len(),
{
    if acc.len() == 0 {
    } else if acc[0].0 == e.0 {
        assert(upsert(acc, e)[0] == e);
    } else {
        lemma_upsert_lookup_hit(acc.drop_first(), e);
        assert((seq![acc[0]] + upsert(acc.drop_first(), e)).drop_first() =~= upsert(
            acc.drop_first(),
            e,
        ));
    }
}

/// An upsert leaves every other name's entry alone.
proof fn lemma_upsert_lookup_miss(
    acc: Seq<(Seq<char>, NormSpec, bool, Option<Seq<char>>)>,
    e: (Seq<char>, NormSpec, bool, Option<Seq<char>>),
    name: Seq<char>,
)
    requires
        name != e.0,
    ensures
        prop_lookup(upsert(acc, e), name) == prop_lookup(acc, name),
    decreases acc.len(),
{
    if acc.len() == 0 {
    } else if acc[0].0 == e.0 {
        assert(upsert(acc, e) == acc.update(0, e));
        assert(upsert(acc, e).drop_first() =~= acc.drop_first());
        assert(upsert(acc, e)[0].0 == e.0);
        assert(prop_lookup(upsert(acc, e), name) == prop_lookup(
            upsert(acc, e).drop_first(),
            name,
        ));
        assert(prop_lookup(acc, name) == prop_lookup(acc.drop_first(), name));
    } else {
        lemma_upsert_lookup_miss(acc.drop_first(), e, name);
        assert((seq![acc[0]] + upsert(acc.drop_first(), e)).drop_first() =~= upsert(
            acc.drop_first(),
            e,
        ));
        assert(upsert(acc, e)[0] == acc[0]);
    }
}

/// After upserting a batch with pairwise distinct names, each of its names
/// is found bound to the batch's own entry.
proof fn lemma_upsert_all_lookup(
    acc: Seq<(Seq<char>, NormSpec, bool, Option<Seq<char>>)>,
    props: Seq<(Seq<char>, NormSpec, bool, Option<Seq<char>>)>,
    n: int,
    m: int,
)
    requires
        0 <= m < n <= props.len(),
        distinct_keys(props),
    ensures
        prop_lookup(upsert_all(acc, props, n), props[m].0) == Option::Some(props[m]),
    decreases n,
{
    if m == n - 1 {
        lemma_upsert_lookup_hit(upsert_all(acc, props, n - 1), props[n - 1]);
    } else {
        lemma_upsert_all_lookup(acc, props, n - 1, m);
        assert(props[m].0 != props[n - 1].0);
        lemma_upsert_lookup_miss(upsert_all(acc, props, n - 1), props[n - 1], props[m].0);
    }
}

/// On a name collision between two merged object alternatives, the later
/// alternative's entry wins: looking the name up in the merge of the two
/// yields the second alternative's child node, required flag and
/// description.
pub proof fn lemma_all_of_merge_later_wins(
    a: Seq<(Seq<char>, NormSpec, bool, Option<Seq<char>>)>,
    b: Seq<(Seq<char>, NormSpec, bool, Option<Seq<char>>)>,
    j: int,
)
    requires
        distinct_keys(b),
        0 <= j < b.len(),
    ensures
        prop_lookup(merge_alts(seq![NormSpec::Object(a), NormSpec::Object(b)], 2), b[j].0)
            == Option::Some(b[j]),
{
    let alts = seq![NormSpec::Object(a), NormSpec::Object(b)];
    assert(alts[1] == NormSpec::Object(b));
    assert(merge_alts(alts, 2) == upsert_all(merge_alts(alts, 1), b, b.len() as int));
    lemma_upsert_all_lookup(merge_alts(alts, 1), b, b.len() as int, j);
}

} // verus!
