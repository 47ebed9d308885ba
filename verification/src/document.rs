//! The in-memory model of an API description, and the reference resolver.
//!
//! The document holds one lookup table per entity kind (schema, parameter,
//! request body, path item). A `RefOr<T>` is either a direct item or a
//! same-document pointer (`#/...`); the resolver follows pointers one
//! indirection at a time until a direct item is reached, rejecting external
//! pointers, dangling pointers, and cyclic chains.

use vstd::prelude::*;

use crate::text::string_to_chars;

verus! {

broadcast use vstd::std_specs::vec::group_vec_axioms, vstd::seq::group_seq_axioms;

/// Why a schema or a reference could not be used.
#[derive(Debug, PartialEq, Eq)]
pub enum SchemaError {
    /// A same-document pointer that resolves to nothing; carries the pointer.
    ReferenceError(String),
    /// A pointer that leads outside the document.
    UnsupportedExternalReference,
    /// A chain of pointers longer than the document can honestly hold.
    ReferenceCycle,
    /// A schema construct the engine does not support.
    UnsupportedSchema,
}

/// The mathematical shape of a `SchemaError`.
pub enum ErrSpec {
    ReferenceError(Seq<char>),
    UnsupportedExternalReference,
    ReferenceCycle,
    UnsupportedSchema,
}

impl View for SchemaError {
    type V = ErrSpec;

    open spec fn view(&self) -> ErrSpec {
        match self {
            SchemaError::ReferenceError(s) => ErrSpec::ReferenceError(s@),
            SchemaError::UnsupportedExternalReference => ErrSpec::UnsupportedExternalReference,
            SchemaError::ReferenceCycle => ErrSpec::ReferenceCycle,
            SchemaError::UnsupportedSchema => ErrSpec::UnsupportedSchema,
        }
    }
}

/// Either an owned item or a same-document pointer to one.
#[derive(Debug)]
pub enum RefOr<T> {
    Item(T),
    Ref(String),
}

/// How a string is to be collected.
#[derive(Debug, Clone, Copy, PartialEq, Eq)]
pub enum StrFormat {
    Plain,
    Password,
    Date,
}

/// The declared constraints of a string schema.
#[derive(Debug, PartialEq, Eq)]
pub struct StringFacets {
    pub format: StrFormat,
    pub pattern: Option<String>,
    pub enumeration: Vec<String>,
    pub min_length: Option<usize>,
    pub max_length: Option<usize>,
}

/// The declared constraints of a number or integer schema.
#[derive(Debug, PartialEq, Eq)]
pub struct NumFacets {
    pub multiple_of: Option<i64>,
    pub exclusive_minimum: bool,
    pub exclusive_maximum: bool,
    pub minimum: Option<i64>,
    pub maximum: Option<i64>,
    pub enumeration: Vec<i64>,
}

/// The declared constraints of an array schema.
#[derive(Debug)]
pub struct ArrayFacets {
    pub items: Option<Box<RefOr<Schema>>>,
    pub min_items: Option<usize>,
    pub max_items: Option<usize>,
    pub unique_items: bool,
}

/// The declared properties of an object schema, in declaration order, and
/// the names of the required ones.
#[derive(Debug)]
pub struct ObjectFacets {
    pub properties: Vec<(String, RefOr<Schema>)>,
    pub required: Vec<String>,
}

/// One schema node, before normalization.
#[derive(Debug)]
pub struct Schema {
    pub kind: SchemaKind,
    pub description: Option<String>,
    pub nullable: bool,
}

#[derive(Debug)]
pub enum SchemaKind {
    Str(StringFacets),
    Num(NumFacets),
    Int(NumFacets),
    Boolean,
    Arr(ArrayFacets),
    Object(ObjectFacets),
    OneOf(Vec<RefOr<Schema>>),
    AnyOf(Vec<RefOr<Schema>>),
    AllOf(Vec<RefOr<Schema>>),
    Not,
    AnySchema,
}

/// Where a parameter is carried.
#[derive(Debug, PartialEq, Eq)]
pub enum ParamLocation {
    Query { allow_empty_value: Option<bool> },
    Header,
    Path,
    Cookie,
}

/// How a parameter's value is described: by a schema, or by a media-type
/// content map (which the engine does not support).
#[derive(Debug)]
pub enum ParamFormat {
    Schema(RefOr<Schema>),
    Content,
}

#[derive(Debug)]
pub struct Parameter {
    pub name: String,
    pub description: Option<String>,
    pub required: bool,
    pub location: ParamLocation,
    pub format: ParamFormat,
}

/// A request body: content type to optional schema, in declaration order.
#[derive(Debug)]
pub struct RequestBody {
    pub content: Vec<(String, Option<RefOr<Schema>>)>,
}

#[derive(Debug)]
pub struct Operation {
    pub parameters: Vec<RefOr<Parameter>>,
    pub request_body: Option<RefOr<RequestBody>>,
}

#[derive(Debug)]
pub struct PathItem {
    pub description: Option<String>,
    pub get: Option<Operation>,
    pub post: Option<Operation>,
    pub put: Option<Operation>,
    pub delete: Option<Operation>,
    pub patch: Option<Operation>,
}

/// A parsed API description: the paths table and the components tables,
/// each keyed by name.
pub struct Document {
    pub paths: Vec<(String, RefOr<PathItem>)>,
    pub schemas: Vec<(String, RefOr<Schema>)>,
    pub parameters: Vec<(String, RefOr<Parameter>)>,
    pub request_bodies: Vec<(String, RefOr<RequestBody>)>,
}

/// Whether a pointer stays inside the document.
pub open spec fn is_internal_pointer(s: Seq<char>) -> bool {
    s.len() >= 2 && s[0] == '#' && s[1] == '/'
}

/// The index of the last `/` in `s`, or `-1` if there is none.
pub open spec fn rfind_slash(s: Seq<char>) -> int
    decreases s.len(),
{
    if s.len() == 0 {
        -1
    } else if s.last() == '/' {
        s.len() - 1
    } else {
        rfind_slash(s.drop_last())
    }
}

pub proof fn lemma_rfind_slash_range(s: Seq<char>)
    ensures
        -1 <= rfind_slash(s) < s.len(),
    decreases s.len(),
{
    if s.len() > 0 && s.last() != '/' {
        lemma_rfind_slash_range(s.drop_last());
    }
}

/// The component name a pointer selects: everything after its last `/`.
pub open spec fn pointer_key(s: Seq<char>) -> Seq<char> {
    s.subrange(rfind_slash(s) + 1, s.len() as int)
}

/// The first entry of `table` under the given key, if any.
pub open spec fn lookup_spec<T>(table: Seq<(String, RefOr<T>)>, key: Seq<char>) -> Option<RefOr<T>>
    decreases table.len(),
{
    if table.len() == 0 {
        Option::None
    } else if table[0].0@ == key {
        Option::Some(table[0].1)
    } else {
        lookup_spec(table.drop_first(), key)
    }
}

/// What resolving a reference-or-item against a table yields: the item
/// itself; the item the pointer chain leads to; or the error naming what
/// went wrong. `fuel` bounds the chain length.
pub open spec fn resolve_spec<T>(
    table: Seq<(String, RefOr<T>)>,
    r: RefOr<T>,
    fuel: nat,
) -> Result<T, ErrSpec>
    decreases fuel,
{
    match r {
        RefOr::Item(t) => Result::Ok(t),
        RefOr::Ref(s) => {
            if !is_internal_pointer(s@) {
                Result::Err(ErrSpec::UnsupportedExternalReference)
            } else {
                match lookup_spec(table, pointer_key(s@)) {
                    Option::None => Result::Err(ErrSpec::ReferenceError(s@)),
                    Option::Some(next) => {
                        if fuel == 0 {
                            Result::Err(ErrSpec::ReferenceCycle)
                        } else {
                            resolve_spec(table, next, (fuel - 1) as nat)
                        }
                    },
                }
            }
        },
    }
}

/// The chain-length budget the resolver grants a table: one more step than
/// the table has entries, so only a revisited entry can exhaust it.
pub open spec fn resolve_fuel<T>(table: Seq<(String, RefOr<T>)>) -> nat {
    if table.len() + 1 > u64::MAX {
        u64::MAX as nat
    } else {
        (table.len() + 1) as nat
    }
}

/// The component name a pointer selects, as characters.
fn pointer_key_chars(cs: &Vec<char>) -> (r: Vec<char>)
    ensures
        r@ == pointer_key(cs@),
{
    proof {
        lemma_rfind_slash_range(cs@);
        assert(cs@.subrange(0, cs@.len() as int) =~= cs@);
    }
    let mut j: usize = cs.len();
    while j > 0 && cs[j - 1] != '/'
        invariant
            0 <= j <= cs.len(),
            rfind_slash(cs@) == rfind_slash(cs@.subrange(0, j as int)),
        decreases j,
    {
        proof {
            let pre = cs@.subrange(0, j as int);
            assert(pre.last() == cs@[j - 1]);
            assert(pre.drop_last() =~= cs@.subrange(0, j - 1));
        }
        j = j - 1;
    }
    proof {
        if j == 0 {
            assert(cs@.subrange(0, 0) =~= Seq::<char>::empty());
            assert(rfind_slash(cs@) == -1);
        } else {
            let pre = cs@.subrange(0, j as int);
            assert(pre.last() == cs@[j - 1]);
            assert(rfind_slash(cs@) == j - 1);
        }
    }
    let mut out: Vec<char> = Vec::new();
    let mut k: usize = j;
    while k < cs.len()
        invariant
            j <= k <= cs.len(),
            rfind_slash(cs@) == j - 1,
            out@ == cs@.subrange(j as int, k as int),
        decreases cs.len() - k,
    {
        out.push(cs[k]);
        k = k + 1;
        assert(out@ =~= cs@.subrange(j as int, k as int));
    }
    assert(out@ =~= pointer_key(cs@));
    out
}

/// The first entry of `table` under the given key, if any.
pub fn lookup_in<'a, T>(table: &'a Vec<(String, RefOr<T>)>, key: &Vec<char>) -> (res: Option<
    &'a RefOr<T>,
>)
    ensures
        match res {
            Option::Some(x) => lookup_spec(table@, key@) == Option::Some(*x),
            Option::None => lookup_spec(table@, key@) is None,
        },
{
    let mut i: usize = 0;
    proof {
        assert(table@.skip(0) =~= table@);
    }
    while i < table.len()
        invariant
            0 <= i <= table.len(),
            lookup_spec(table@, key@) == lookup_spec(table@.skip(i as int), key@),
        decreases table.len() - i,
    {
        proof {
            assert(table@.skip(i as int)[0] == table@[i as int]);
        }
        if crate::text::chars_eq_str(key, table[i].0.as_str()) {
            return Option::Some(&table[i].1);
        }
        proof {
            assert(table@.skip(i as int).drop_first() =~= table@.skip(i as int + 1));
        }
        i = i + 1;
    }
    proof {
        assert(table@.skip(table@.len() as int).len() == 0);
    }
    Option::None
}

/// Resolves a reference-or-item to the item it denotes, following
/// same-document pointers through `table` one indirection at a time.
/// Fails with `UnsupportedExternalReference` on a pointer that leaves the
/// document, with `ReferenceError` on a dangling pointer, and with
/// `ReferenceCycle` on a chain no honest table could produce.
pub fn resolve_in<'a, T>(table: &'a Vec<(String, RefOr<T>)>, r: &'a RefOr<T>) -> (res: Result<
    &'a T,
    SchemaError,
>)
    ensures
        match res {
            Result::Ok(t) => resolve_spec(table@, *r, resolve_fuel(table@)) == Result::Ok::<
                T,
                ErrSpec,
            >(*t),
            Result::Err(e) => resolve_spec(table@, *r, resolve_fuel(table@)) == Result::Err::<
                T,
                ErrSpec,
            >(e@),
        },
{
    let mut cur: &'a RefOr<T> = r;
    let mut fuel: u64 = (table.len() as u64).saturating_add(1);
    proof {
        assert(fuel as nat == resolve_fuel(table@));
    }
    loop
        invariant
            fuel <= table@.len() + 1,
            resolve_spec(table@, *r, resolve_fuel(table@)) == resolve_spec(
                table@,
                *cur,
                fuel as nat,
            ),
        decreases fuel + 1,
    {
        match cur {
            RefOr::Item(t) => {
                return Result::Ok(t);
            },
            RefOr::Ref(s) => {
                let cs = string_to_chars(s.as_str());
                if !(cs.len() >= 2 && cs[0] == '#' && cs[1] == '/') {
                    assert(!is_internal_pointer(s@));
                    return Result::Err(SchemaError::UnsupportedExternalReference);
                }
                assert(is_internal_pointer(s@));
                let key = pointer_key_chars(&cs);
                match lookup_in(table, &key) {
                    Option::None => {
                        return Result::Err(SchemaError::ReferenceError(s.clone()));
                    },
                    Option::Some(next) => {
                        if fuel == 0 {
                            return Result::Err(SchemaError::ReferenceCycle);
                        }
                        fuel = fuel - 1;
                        cur = next;
                    },
                }
            },
        }
    }
}

impl Document {
    /// Resolves a schema reference against the document's schema table.
    pub fn schema_item<'a>(&'a self, r: &'a RefOr<Schema>) -> (res: Result<&'a Schema, SchemaError>)
        ensures
            match res {
                Result::Ok(t) => resolve_spec(self.schemas@, *r, resolve_fuel(self.schemas@))
                    == Result::Ok::<Schema, ErrSpec>(*t),
                Result::Err(e) => resolve_spec(self.schemas@, *r, resolve_fuel(self.schemas@))
                    == Result::Err::<Schema, ErrSpec>(e@),
            },
    {
        resolve_in(&self.schemas, r)
    }

    /// Resolves a parameter reference against the document's parameter table.
    pub fn parameter_item<'a>(&'a self, r: &'a RefOr<Parameter>) -> (res: Result<
        &'a Parameter,
        SchemaError,
    >)
        ensures
            match res {
                Result::Ok(t) => resolve_spec(self.parameters@, *r, resolve_fuel(self.parameters@))
                    == Result::Ok::<Parameter, ErrSpec>(*t),
                Result::Err(e) => resolve_spec(self.parameters@, *r, resolve_fuel(self.parameters@))
                    == Result::Err::<Parameter, ErrSpec>(e@),
            },
    {
        resolve_in(&self.parameters, r)
    }

    /// Resolves a request-body reference against the document's table.
    pub fn request_body_item<'a>(&'a self, r: &'a RefOr<RequestBody>) -> (res: Result<
        &'a RequestBody,
        SchemaError,
    >)
        ensures
            match res {
                Result::Ok(t) => resolve_spec(
                    self.request_bodies@,
                    *r,
                    resolve_fuel(self.request_bodies@),
                ) == Result::Ok::<RequestBody, ErrSpec>(*t),
                Result::Err(e) => resolve_spec(
                    self.request_bodies@,
                    *r,
                    resolve_fuel(self.request_bodies@),
                ) == Result::Err::<RequestBody, ErrSpec>(e@),
            },
    {
        resolve_in(&self.request_bodies, r)
    }

    /// Resolves a path-item reference against the document's paths table.
    pub fn path_item<'a>(&'a self, r: &'a RefOr<PathItem>) -> (res: Result<
        &'a PathItem,
        SchemaError,
    >)
        ensures
            match res {
                Result::Ok(t) => resolve_spec(self.paths@, *r, resolve_fuel(self.paths@))
                    == Result::Ok::<PathItem, ErrSpec>(*t),
                Result::Err(e) => resolve_spec(self.paths@, *r, resolve_fuel(self.paths@))
                    == Result::Err::<PathItem, ErrSpec>(e@),
            },
    {
        resolve_in(&self.paths, r)
    }
}

} // verus!
