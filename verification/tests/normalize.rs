use oreq::document::{
    ArrayFacets, Document, NumFacets, ObjectFacets, RefOr, Schema, SchemaError, SchemaKind,
    StrFormat, StringFacets,
};
use oreq::schema::{flat_schema, SchemaType};

fn empty_doc() -> Document {
    Document { paths: Vec::new(), schemas: Vec::new(), parameters: Vec::new(), request_bodies: Vec::new() }
}

fn string_schema() -> Schema {
    Schema {
        kind: SchemaKind::Str(StringFacets {
            format: StrFormat::Plain,
            pattern: None,
            enumeration: Vec::new(),
            min_length: None,
            max_length: None,
        }),
        description: None,
        nullable: false,
    }
}

fn object_schema(props: Vec<(&str, Schema)>, required: Vec<&str>) -> Schema {
    Schema {
        kind: SchemaKind::Object(ObjectFacets {
            properties: props
                .into_iter()
                .map(|(k, v)| (k.to_owned(), RefOr::Item(v)))
                .collect(),
            required: required.into_iter().map(|s| s.to_owned()).collect(),
        }),
        description: None,
        nullable: false,
    }
}

#[test]
fn test_flatten_all_of() {
    let first = object_schema(
        vec![
            ("created_at", string_schema()),
            ("updated_at", string_schema()),
            ("deleted_at", string_schema()),
        ],
        vec!["created_at"],
    );
    let second = object_schema(vec![("test", string_schema())], vec![]);
    let schema = Schema {
        kind: SchemaKind::AllOf(vec![RefOr::Item(first), RefOr::Item(second)]),
        description: None,
        nullable: false,
    };
    let doc = empty_doc();
    let (node, _, _) = flat_schema(&schema, &doc, true).unwrap();

    if let SchemaType::Object(obj) = node {
        assert_eq!(obj.len(), 4);
    } else {
        unreachable!()
    }
}

#[test]
fn test_flatten_all_of_later_wins() {
    let first = object_schema(vec![("shared", string_schema())], vec!["shared"]);
    let second = object_schema(
        vec![(
            "shared",
            Schema {
                kind: SchemaKind::Boolean,
                description: None,
                nullable: false,
            },
        )],
        vec![],
    );
    let schema = Schema {
        kind: SchemaKind::AllOf(vec![RefOr::Item(first), RefOr::Item(second)]),
        description: None,
        nullable: false,
    };
    let doc = empty_doc();
    let (node, _, _) = flat_schema(&schema, &doc, true).unwrap();

    if let SchemaType::Object(obj) = node {
        assert_eq!(obj.len(), 1);
        assert_eq!(obj[0].0, "shared");
        assert_eq!(obj[0].1 .0, SchemaType::Boolean);
        assert!(!obj[0].1 .1);
    } else {
        unreachable!()
    }
}

#[test]
fn test_flatten_deterministic() {
    let schema = object_schema(
        vec![("a", string_schema()), ("b", string_schema())],
        vec!["a"],
    );
    let doc = empty_doc();
    let r1 = flat_schema(&schema, &doc, true).unwrap();
    let r2 = flat_schema(&schema, &doc, true).unwrap();
    assert_eq!(r1.0, r2.0);
    assert_eq!(r1.1, r2.1);
    assert_eq!(r1.2, r2.2);
}

#[test]
fn test_flatten_object_required_membership() {
    let schema = object_schema(
        vec![("name", string_schema()), ("age", string_schema())],
        vec!["name"],
    );
    let doc = empty_doc();
    let (node, req, _) = flat_schema(&schema, &doc, false).unwrap();
    assert!(!req);
    if let SchemaType::Object(obj) = node {
        assert_eq!(obj.len(), 2);
        assert_eq!(obj[0].0, "name");
        assert!(obj[0].1 .1);
        assert_eq!(obj[1].0, "age");
        assert!(!obj[1].1 .1);
    } else {
        unreachable!()
    }
}

#[test]
fn test_flatten_one_of_choice() {
    let schema = Schema {
        kind: SchemaKind::OneOf(vec![
            RefOr::Item(string_schema()),
            RefOr::Item(Schema { kind: SchemaKind::Boolean, description: None, nullable: false }),
        ]),
        description: None,
        nullable: false,
    };
    let doc = empty_doc();
    let (node, _, _) = flat_schema(&schema, &doc, true).unwrap();
    if let SchemaType::Choice(alts) = node {
        assert_eq!(alts.len(), 2);
        assert!(matches!(alts[0], SchemaType::String(_)));
        assert_eq!(alts[1], SchemaType::Boolean);
    } else {
        unreachable!()
    }
}

#[test]
fn test_flatten_not_unsupported() {
    let schema = Schema { kind: SchemaKind::Not, description: None, nullable: false };
    let doc = empty_doc();
    assert_eq!(
        flat_schema(&schema, &doc, true).unwrap_err(),
        SchemaError::UnsupportedSchema
    );
}

#[test]
fn test_resolver_follows_chain() {
    let doc = Document {
        paths: Vec::new(),
        schemas: vec![
            (
                "Alias".to_owned(),
                RefOr::Ref("#/components/schemas/Real".to_owned()),
            ),
            ("Real".to_owned(), RefOr::Item(string_schema())),
        ],
        parameters: Vec::new(),
        request_bodies: Vec::new(),
    };
    let r = RefOr::Ref("#/components/schemas/Alias".to_owned());
    let schema = doc.schema_item(&r).unwrap();
    assert!(matches!(schema.kind, SchemaKind::Str(_)));
}

#[test]
fn test_resolver_dangling_reference() {
    let doc = empty_doc();
    let r: RefOr<Schema> = RefOr::Ref("#/components/schemas/Missing".to_owned());
    assert_eq!(
        doc.schema_item(&r).unwrap_err(),
        SchemaError::ReferenceError("#/components/schemas/Missing".to_owned())
    );
}

#[test]
fn test_resolver_external_reference() {
    let doc = empty_doc();
    let r: RefOr<Schema> = RefOr::Ref("https://example.com/openapi.yaml#/Pet".to_owned());
    assert_eq!(
        doc.schema_item(&r).unwrap_err(),
        SchemaError::UnsupportedExternalReference
    );
}

#[test]
fn test_resolver_cycle() {
    let doc = Document {
        paths: Vec::new(),
        schemas: vec![
            ("A".to_owned(), RefOr::Ref("#/components/schemas/B".to_owned())),
            ("B".to_owned(), RefOr::Ref("#/components/schemas/A".to_owned())),
        ],
        parameters: Vec::new(),
        request_bodies: Vec::new(),
    };
    let r: RefOr<Schema> = RefOr::Ref("#/components/schemas/A".to_owned());
    assert_eq!(doc.schema_item(&r).unwrap_err(), SchemaError::ReferenceCycle);
}

#[test]
fn test_flatten_cyclic_schema_fails_fast() {
    let inner = Schema {
        kind: SchemaKind::Arr(ArrayFacets {
            items: Some(Box::new(RefOr::Ref("#/components/schemas/Node".to_owned()))),
            min_items: None,
            max_items: None,
            unique_items: false,
        }),
        description: None,
        nullable: false,
    };
    let doc = Document {
        paths: Vec::new(),
        schemas: vec![("Node".to_owned(), RefOr::Item(inner))],
        parameters: Vec::new(),
        request_bodies: Vec::new(),
    };
    let start = RefOr::Ref("#/components/schemas/Node".to_owned());
    let schema = doc.schema_item(&start).unwrap();
    assert_eq!(
        flat_schema(schema, &doc, true).unwrap_err(),
        SchemaError::ReferenceCycle
    );
}

#[test]
fn test_flatten_integer_facets_carried() {
    let schema = Schema {
        kind: SchemaKind::Int(NumFacets {
            multiple_of: Some(2),
            exclusive_minimum: true,
            exclusive_maximum: false,
            minimum: Some(0),
            maximum: Some(10),
            enumeration: Vec::new(),
        }),
        description: Some("how many".to_owned()),
        nullable: false,
    };
    let doc = empty_doc();
    let (node, req, desc) = flat_schema(&schema, &doc, true).unwrap();
    assert!(req);
    assert_eq!(desc, Some("how many".to_owned()));
    if let SchemaType::Integer(f) = node {
        assert_eq!(f.minimum, Some(0));
        assert_eq!(f.maximum, Some(10));
        assert!(f.exclusive_minimum);
        assert!(!f.exclusive_maximum);
        assert_eq!(f.multiple_of, Some(2));
    } else {
        unreachable!()
    }
}
