//! The operation lookup and parameter classification: the pure decisions
//! behind one interactive session. Choosing a path and method that were
//! supplied by the caller must succeed or fail hard; the parameters of the
//! chosen operation are resolved and bucketed by location in declaration
//! order; each parameter and the request body map to a normalized node
//! ready for the prompt compiler.

use vstd::prelude::*;

use crate::document::{
    lookup_spec, resolve_fuel, resolve_spec, Document, ErrSpec, Operation, ParamFormat,
    ParamLocation, Parameter, PathItem, RefOr, Schema, SchemaError,
};
use crate::schema::{flat_fuel, flat_schema, flat_spec, opt_text, NormSpec, SchemaType};
use crate::text::string_to_chars;

verus! {

broadcast use vstd::std_specs::vec::group_vec_axioms, vstd::seq::group_seq_axioms;

/// Looks a path template up in the paths table, by its literal name.
pub fn find_path<'a>(doc: &'a Document, path: &String) -> (r: Option<&'a RefOr<PathItem>>)
    ensures
        match r {
            Option::Some(x) => lookup_spec(doc.paths@, path@) == Option::Some(*x),
            Option::None => lookup_spec(doc.paths@, path@) is None,
        },
{
    let key = string_to_chars(path.as_str());
    crate::document::lookup_in(&doc.paths, &key)
}

/// The operation a path item offers under the given method name, if any.
pub fn operation_of<'a>(pi: &'a PathItem, method: &String) -> (r: Option<&'a Operation>)
    ensures
        method@ == "GET"@ ==> r == get_ref(&pi.get),
        method@ == "POST"@ ==> r == get_ref(&pi.post),
        method@ == "PUT"@ ==> r == get_ref(&pi.put),
        method@ == "DELETE"@ ==> r == get_ref(&pi.delete),
        method@ == "PATCH"@ ==> r == get_ref(&pi.patch),
        method@ != "GET"@ && method@ != "POST"@ && method@ != "PUT"@ && method@ != "DELETE"@
            && method@ != "PATCH"@ ==> r is None,
{
    let cs = string_to_chars(method.as_str());
    proof {
        reveal_strlit("GET");
        reveal_strlit("POST");
        reveal_strlit("PUT");
        reveal_strlit("DELETE");
        reveal_strlit("PATCH");
        assert("GET"@.len() == 3);
        assert("POST"@.len() == 4);
        assert("PUT"@.len() == 3);
        assert("DELETE"@.len() == 6);
        assert("PATCH"@.len() == 5);
        assert("GET"@[0] == 'G' && "PUT"@[0] == 'P');
    }
    if crate::text::chars_eq_str(&cs, "GET") {
        as_ref_opt(&pi.get)
    } else if crate::text::chars_eq_str(&cs, "POST") {
        as_ref_opt(&pi.post)
    } else if crate::text::chars_eq_str(&cs, "PUT") {
        as_ref_opt(&pi.put)
    } else if crate::text::chars_eq_str(&cs, "DELETE") {
        as_ref_opt(&pi.delete)
    } else if crate::text::chars_eq_str(&cs, "PATCH") {
        as_ref_opt(&pi.patch)
    } else {
        Option::None
    }
}

/// The optional operation, by reference.
pub open spec fn get_ref<'a>(o: &'a Option<Operation>) -> Option<&'a Operation> {
    match o {
        Option::Some(op) => Option::Some(op),
        Option::None => Option::None,
    }
}

fn as_ref_opt<'a>(o: &'a Option<Operation>) -> (r: Option<&'a Operation>)
    ensures
        r == get_ref(o),
{
    match o {
        Option::Some(op) => Option::Some(op),
        Option::None => Option::None,
    }
}

/// The first `i` parameter references of an operation, each resolved
/// against the document's parameter table.
pub open spec fn resolved_params_spec(
    table: Seq<(String, RefOr<Parameter>)>,
    list: Seq<RefOr<Parameter>>,
    i: int,
) -> Result<Seq<Parameter>, ErrSpec>
    decreases i,
{
    if i <= 0 {
        Result::Ok(Seq::<Parameter>::empty())
    } else if i > list.len() {
        resolved_params_spec(table, list, list.len() as int)
    } else {
        match resolved_params_spec(table, list, i - 1) {
            Result::Err(e) => Result::Err(e),
            Result::Ok(acc) => match resolve_spec(table, list[i - 1], resolve_fuel(table)) {
                Result::Err(e) => Result::Err(e),
                Result::Ok(p) => Result::Ok(acc.push(p)),
            },
        }
    }
}

proof fn lemma_resolved_params_err_mono(
    table: Seq<(String, RefOr<Parameter>)>,
    list: Seq<RefOr<Parameter>>,
    i: int,
    j: int,
)
    requires
        0 <= i <= j <= list.len(),
        resolved_params_spec(table, list, i) is Err,
    ensures
        resolved_params_spec(table, list, j) == resolved_params_spec(table, list, i),
    decreases j - i,
{
    if j > i {
        lemma_resolved_params_err_mono(table, list, i, j - 1);
    }
}

/// The views of a sequence of borrowed parameters.
pub open spec fn params_deref(l: Seq<&Parameter>) -> Seq<Parameter>
    decreases l.len(),
{
    if l.len() == 0 {
        Seq::<Parameter>::empty()
    } else {
        params_deref(l.drop_last()).push(*l.last())
    }
}

/// Resolves every parameter reference of an operation, in order.
#[verifier::loop_isolation(false)]
pub fn resolve_parameters<'a>(doc: &'a Document, op: &'a Operation) -> (r: Result<
    Vec<&'a Parameter>,
    SchemaError,
>)
    ensures
        match r {
            Result::Ok(ps) => resolved_params_spec(
                doc.parameters@,
                op.parameters@,
                op.parameters@.len() as int,
            ) == Result::Ok::<Seq<Parameter>, ErrSpec>(params_deref(ps@)),
            Result::Err(e) => resolved_params_spec(
                doc.parameters@,
                op.parameters@,
                op.parameters@.len() as int,
            ) == Result::Err::<Seq<Parameter>, ErrSpec>(e@),
        },
{
    let mut out: Vec<&'a Parameter> = Vec::new();
    let mut i: usize = 0;
    while i < op.parameters.len()
        invariant
            0 <= i <= op.parameters@.len(),
            resolved_params_spec(doc.parameters@, op.parameters@, i as int) == Result::Ok::<
                Seq<Parameter>,
                ErrSpec,
            >(params_deref(out@)),
        decreases op.parameters@.len() - i,
    {
        let p = match doc.parameter_item(&op.parameters[i]) {
            Result::Ok(p) => p,
            Result::Err(e) => {
                proof {
                    lemma_resolved_params_err_mono(
                        doc.parameters@,
                        op.parameters@,
                        i as int + 1,
                        op.parameters@.len() as int,
                    );
                }
                return Result::Err(e);
            },
        };
        let ghost pre = out@;
        out.push(p);
        i = i + 1;
        proof {
            assert(out@.drop_last() =~= pre);
            assert(params_deref(out@) == params_deref(pre).push(*out@.last()));
        }
    }
    Result::Ok(out)
}

/// A parameter location kind, for bucketing.
#[derive(Debug, Clone, Copy, PartialEq, Eq)]
pub enum LocKind {
    Query,
    Header,
    Path,
    Cookie,
}

/// Whether a parameter is carried at the given location.
pub open spec fn at_location(p: Parameter, k: LocKind) -> bool {
    match p.location {
        ParamLocation::Query { .. } => k is Query,
        ParamLocation::Header => k is Header,
        ParamLocation::Path => k is Path,
        ParamLocation::Cookie => k is Cookie,
    }
}

/// The parameters among the first `i` that are carried at location `k`,
/// in declaration order.
pub open spec fn bucket_spec(l: Seq<Parameter>, k: LocKind, i: int) -> Seq<Parameter>
    decreases i,
{
    if i <= 0 {
        Seq::<Parameter>::empty()
    } else if i > l.len() {
        bucket_spec(l, k, l.len() as int)
    } else if at_location(l[i - 1], k) {
        bucket_spec(l, k, i - 1).push(l[i - 1])
    } else {
        bucket_spec(l, k, i - 1)
    }
}

/// Keeps the parameters of one location, in declaration order.
#[verifier::loop_isolation(false)]
pub fn filter_location<'a>(params: &Vec<&'a Parameter>, k: LocKind) -> (r: Vec<&'a Parameter>)
    ensures
        params_deref(r@) == bucket_spec(params_deref(params@), k, params_deref(params@).len() as int),
{
    proof {
        lemma_params_deref(params@);
    }
    let ghost all = params_deref(params@);
    let mut out: Vec<&'a Parameter> = Vec::new();
    let mut i: usize = 0;
    while i < params.len()
        invariant
            0 <= i <= params@.len(),
            all == params_deref(params@),
            all.len() == params@.len(),
            forall|j: int| 0 <= j < params@.len() ==> all[j] == *params@[j],
            params_deref(out@) == bucket_spec(all, k, i as int),
        decreases params@.len() - i,
    {
        let keep: bool = match params[i].location {
            ParamLocation::Query { .. } => matches!(k, LocKind::Query),
            ParamLocation::Header => matches!(k, LocKind::Header),
            ParamLocation::Path => matches!(k, LocKind::Path),
            ParamLocation::Cookie => matches!(k, LocKind::Cookie),
        };
        if keep {
            let ghost pre = out@;
            out.push(params[i]);
            proof {
                assert(out@.drop_last() =~= pre);
                assert(params_deref(out@) == params_deref(pre).push(*out@.last()));
            }
        }
        i = i + 1;
    }
    out
}

/// `params_deref` maps the sequence reference by reference.
pub proof fn lemma_params_deref(l: Seq<&Parameter>)
    ensures
        params_deref(l).len() == l.len(),
        forall|i: int| 0 <= i < l.len() ==> params_deref(l)[i] == *l[i],
    decreases l.len(),
{
    if l.len() > 0 {
        lemma_params_deref(l.drop_last());
        assert(params_deref(l) == params_deref(l.drop_last()).push(*l.last()));
        assert forall|i: int| 0 <= i < l.len() implies params_deref(l)[i] == *l[i] by {
            if i < l.len() - 1 {
                assert(l.drop_last()[i] == l[i]);
                assert(params_deref(l)[i] == params_deref(l.drop_last())[i]);
            } else {
                assert(l.last() == l[i]);
            }
        }
    }
}

/// Whether the parameter must yield a value: declared required, except
/// that a query parameter explicitly allowing an empty value is relaxed
/// and may be skipped after all.
pub open spec fn effective_required(p: Parameter) -> bool {
    p.required && !(p.location matches ParamLocation::Query { allow_empty_value }
        && allow_empty_value == Option::Some(true))
}

/// Computes whether a parameter must yield a value.
pub fn is_effective_required(p: &Parameter) -> (r: bool)
    ensures
        r == effective_required(*p),
{
    if !p.required {
        return false;
    }
    match &p.location {
        ParamLocation::Query { allow_empty_value } => {
            match allow_empty_value {
                Option::Some(b) => !*b,
                Option::None => true,
            }
        },
        _ => true,
    }
}

/// Whether a caller-supplied override matches the node's expected
/// primitive tag; a composite override is not checked field by field, and
/// an unresolved choice accepts no override.
pub fn override_matches(node: &SchemaType, v: &crate::value::Val) -> (r: bool)
    ensures
        r == (match node@ {
            NormSpec::String(_) => v@ is Str,
            NormSpec::Number(_) => v@ is Int,
            NormSpec::Integer(_) => v@ is Int,
            NormSpec::Boolean => v@ is Bool,
            NormSpec::Array { .. } => v@ is List,
            NormSpec::Object(_) => v@ is Obj,
            NormSpec::Choice(_) => false,
        }),
{
    match node {
        SchemaType::String(_) => matches!(v, crate::value::Val::Str(_)),
        SchemaType::Number(_) => matches!(v, crate::value::Val::Int(_)),
        SchemaType::Integer(_) => matches!(v, crate::value::Val::Int(_)),
        SchemaType::Boolean => matches!(v, crate::value::Val::Bool(_)),
        SchemaType::Array(_) => matches!(v, crate::value::Val::List(_)),
        SchemaType::Object(_) => matches!(v, crate::value::Val::Obj(_)),
        SchemaType::Choice(_) => false,
    }
}

/// What normalizing a parameter's schema yields: its promptable node,
/// its effective required flag and its description; a parameter described
/// by a content map instead of a schema is refused.
pub open spec fn parameter_node_spec(doc: Document, p: Parameter) -> Result<
    (NormSpec, bool, Option<Seq<char>>),
    ErrSpec,
> {
    match p.format {
        ParamFormat::Content => Result::Err(ErrSpec::UnsupportedSchema),
        ParamFormat::Schema(r) => match resolve_spec(doc.schemas@, r, resolve_fuel(doc.schemas@)) {
            Result::Err(e) => Result::Err(e),
            Result::Ok(s) => flat_spec(
                doc.schemas@,
                s,
                effective_required(p),
                flat_fuel(doc.schemas@, s),
            ),
        },
    }
}

/// Resolves and normalizes a parameter's schema.
pub fn parameter_node(doc: &Document, p: &Parameter) -> (r: Result<
    (SchemaType, bool, Option<String>),
    SchemaError,
>)
    ensures
        match r {
            Result::Ok(t) => parameter_node_spec(*doc, *p) == Result::Ok::<
                (NormSpec, bool, Option<Seq<char>>),
                ErrSpec,
            >((t.0@, t.1, opt_text(t.2))),
            Result::Err(e) => parameter_node_spec(*doc, *p) == Result::Err::<
                (NormSpec, bool, Option<Seq<char>>),
                ErrSpec,
            >(e@),
        },
{
    let rf = match &p.format {
        ParamFormat::Content => {
            return Result::Err(SchemaError::UnsupportedSchema);
        },
        ParamFormat::Schema(rf) => rf,
    };
    let s = match doc.schema_item(rf) {
        Result::Ok(s) => s,
        Result::Err(e) => {
            return Result::Err(e);
        },
    };
    flat_schema(s, doc, is_effective_required(p))
}

/// The first media entry of the given content type, if any.
pub open spec fn content_lookup(
    content: Seq<(String, Option<RefOr<Schema>>)>,
    key: Seq<char>,
) -> Option<Option<RefOr<Schema>>>
    decreases content.len(),
{
    if content.len() == 0 {
        Option::None
    } else if content[0].0@ == key {
        Option::Some(content[0].1)
    } else {
        content_lookup(content.drop_first(), key)
    }
}

fn content_find<'a>(
    content: &'a Vec<(String, Option<RefOr<Schema>>)>,
    key: &str,
) -> (r: Option<&'a Option<RefOr<Schema>>>)
    ensures
        match r {
            Option::Some(x) => content_lookup(content@, key@) == Option::Some(*x),
            Option::None => content_lookup(content@, key@) is None,
        },
{
    let kc = string_to_chars(key);
    let mut i: usize = 0;
    proof {
        assert(content@.skip(0) =~= content@);
    }
    while i < content.len()
        invariant
            0 <= i <= content@.len(),
            kc@ == key@,
            content_lookup(content@, key@) == content_lookup(content@.skip(i as int), key@),
        decreases content@.len() - i,
    {
        proof {
            assert(content@.skip(i as int)[0] == content@[i as int]);
        }
        if crate::text::chars_eq_str(&kc, content[i].0.as_str()) {
            return Option::Some(&content[i].1);
        }
        proof {
            assert(content@.skip(i as int).drop_first() =~= content@.skip(i as int + 1));
        }
        i = i + 1;
    }
    proof {
        assert(content@.skip(content@.len() as int).len() == 0);
    }
    Option::None
}

/// What normalizing an operation's request body yields: nothing when the
/// operation declares none; otherwise the body must offer an
/// `application/json` media type with a schema, normalized with the
/// body's nullability deciding required-ness; anything else is refused.
pub open spec fn body_node_spec(doc: Document, op: Operation) -> Result<
    Option<(NormSpec, bool, Option<Seq<char>>)>,
    ErrSpec,
> {
    match op.request_body {
        Option::None => Result::Ok(Option::None),
        Option::Some(rb) => match resolve_spec(
            doc.request_bodies@,
            rb,
            resolve_fuel(doc.request_bodies@),
        ) {
            Result::Err(e) => Result::Err(e),
            Result::Ok(body) => match content_lookup(body.content@, "application/json"@) {
                Option::None => Result::Err(ErrSpec::UnsupportedSchema),
                Option::Some(Option::None) => Result::Err(ErrSpec::UnsupportedSchema),
                Option::Some(Option::Some(sr)) => match resolve_spec(
                    doc.schemas@,
                    sr,
                    resolve_fuel(doc.schemas@),
                ) {
                    Result::Err(e) => Result::Err(e),
                    Result::Ok(s) => match flat_spec(
                        doc.schemas@,
                        s,
                        !s.nullable,
                        flat_fuel(doc.schemas@, s),
                    ) {
                        Result::Err(e) => Result::Err(e),
                        Result::Ok(t) => Result::Ok(Option::Some(t)),
                    },
                },
            },
        },
    }
}

/// Resolves and normalizes an operation's request body, if it has one.
pub fn body_node(doc: &Document, op: &Operation) -> (r: Result<
    Option<(SchemaType, bool, Option<String>)>,
    SchemaError,
>)
    ensures
        match r {
            Result::Ok(Option::None) => body_node_spec(*doc, *op) == Result::Ok::<
                Option<(NormSpec, bool, Option<Seq<char>>)>,
                ErrSpec,
            >(Option::None),
            Result::Ok(Option::Some(t)) => body_node_spec(*doc, *op) == Result::Ok::<
                Option<(NormSpec, bool, Option<Seq<char>>)>,
                ErrSpec,
            >(Option::Some((t.0@, t.1, opt_text(t.2)))),
            Result::Err(e) => body_node_spec(*doc, *op) == Result::Err::<
                Option<(NormSpec, bool, Option<Seq<char>>)>,
                ErrSpec,
            >(e@),
        },
{
    let rb = match &op.request_body {
        Option::None => {
            return Result::Ok(Option::None);
        },
        Option::Some(rb) => rb,
    };
    let body = match doc.request_body_item(rb) {
        Result::Ok(b) => b,
        Result::Err(e) => {
            return Result::Err(e);
        },
    };
    let media = match content_find(&body.content, "application/json") {
        Option::None => {
            return Result::Err(SchemaError::UnsupportedSchema);
        },
        Option::Some(m) => m,
    };
    let sr = match media {
        Option::None => {
            return Result::Err(SchemaError::UnsupportedSchema);
        },
        Option::Some(sr) => sr,
    };
    let s = match doc.schema_item(sr) {
        Result::Ok(s) => s,
        Result::Err(e) => {
            return Result::Err(e);
        },
    };
    match flat_schema(s, doc, !s.nullable) {
        Result::Ok(t) => Result::Ok(Option::Some(t)),
        Result::Err(e) => Result::Err(e),
    }
}

} // verus!
