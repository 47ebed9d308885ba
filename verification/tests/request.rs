use oreq::api::{
    body_node, filter_location, find_path, is_effective_required, operation_of, parameter_node,
    resolve_parameters, LocKind,
};
use oreq::composite::{drive_skippable_step, drive_step, optional_prompt_builder, prompt_builder,
    DriveResult, DriveSkipResult};
use oreq::document::{
    Document, NumFacets, Operation, ParamFormat, ParamLocation, Parameter, PathItem, RefOr,
    RequestBody, Schema, SchemaError, SchemaKind,
};
use oreq::fmt::{curl_format, fetch_format, FormatError, Formatter, FromStrError};
use oreq::prompts::Event;
use oreq::req::{build_request, render_query, substitute_path, ParamsValue, RequestInit};
use oreq::value::{to_json_string, to_text_string, val_eq, Val};

fn integer_schema() -> Schema {
    Schema {
        kind: SchemaKind::Int(NumFacets {
            multiple_of: None,
            exclusive_minimum: false,
            exclusive_maximum: false,
            minimum: None,
            maximum: None,
            enumeration: Vec::new(),
        }),
        description: None,
        nullable: false,
    }
}

fn boolean_schema() -> Schema {
    Schema { kind: SchemaKind::Boolean, description: None, nullable: false }
}

fn widgets_doc() -> Document {
    let id_param = Parameter {
        name: "id".to_owned(),
        description: None,
        required: true,
        location: ParamLocation::Path,
        format: ParamFormat::Schema(RefOr::Item(integer_schema())),
    };
    let verbose_param = Parameter {
        name: "verbose".to_owned(),
        description: None,
        required: false,
        location: ParamLocation::Query { allow_empty_value: None },
        format: ParamFormat::Schema(RefOr::Item(boolean_schema())),
    };
    let op = Operation {
        parameters: vec![RefOr::Item(id_param), RefOr::Item(verbose_param)],
        request_body: None,
    };
    let pi = PathItem {
        description: None,
        get: Some(op),
        post: None,
        put: None,
        delete: None,
        patch: None,
    };
    Document {
        paths: vec![("/widgets/{id}".to_owned(), RefOr::Item(pi))],
        schemas: Vec::new(),
        parameters: Vec::new(),
        request_bodies: Vec::new(),
    }
}

#[test]
fn test_query_boolean_true_renders_bare() {
    let q = vec![("active".to_owned(), Some(Val::Bool(true)))];
    assert_eq!(render_query(&q), "active");
}

#[test]
fn test_query_boolean_false_is_omitted() {
    let q = vec![
        ("active".to_owned(), Some(Val::Bool(false))),
        ("page".to_owned(), Some(Val::Int(2))),
    ];
    assert_eq!(render_query(&q), "page=2");
}

#[test]
fn test_query_array_joins_with_commas() {
    let q = vec![(
        "list".to_owned(),
        Some(Val::List(vec![Val::Str("a".to_owned()), Val::Str("b".to_owned())])),
    )];
    assert_eq!(render_query(&q), "list=a,b");
}

#[test]
fn test_query_absent_is_omitted() {
    let q = vec![
        ("verbose".to_owned(), None),
        ("page".to_owned(), Some(Val::Int(1))),
        ("sort".to_owned(), Some(Val::Str("asc".to_owned()))),
    ];
    assert_eq!(render_query(&q), "page=1&sort=asc");
}

#[test]
fn test_path_substitution_repeated_placeholder() {
    let params = vec![("id".to_owned(), Some(Val::Str("7".to_owned())))];
    let path = "/users/{id}/posts/{id}".to_owned();
    assert_eq!(substitute_path(&path, &params), "/users/7/posts/7");
}

#[test]
fn test_path_substitution_stringifies() {
    let params = vec![
        ("id".to_owned(), Some(Val::Int(42))),
        ("flag".to_owned(), Some(Val::Bool(true))),
        ("skipped".to_owned(), None),
    ];
    let path = "/a/{id}/b/{flag}/c/{skipped}".to_owned();
    assert_eq!(substitute_path(&path, &params), "/a/42/b/true/c/{skipped}");
}

#[test]
fn test_params_value_textual_forms() {
    assert_eq!(ParamsValue(Val::Null).to_text_string(), "");
    assert_eq!(ParamsValue(Val::Bool(false)).to_text_string(), "false");
    assert_eq!(ParamsValue(Val::Int(-5)).to_text_string(), "-5");
    assert_eq!(ParamsValue(Val::Str("x".to_owned())).to_text_string(), "x");
    assert_eq!(
        ParamsValue(Val::List(vec![Val::Int(1), Val::Int(2)])).to_text_string(),
        "1,2"
    );
    assert_eq!(to_text_string(&Val::Obj(Vec::new())), "");
}

#[test]
fn test_json_rendering() {
    let v = Val::Obj(vec![
        ("name".to_owned(), Val::Str("a\"b".to_owned())),
        ("tags".to_owned(), Val::List(vec![Val::Int(1), Val::Null])),
        ("ok".to_owned(), Val::Bool(true)),
    ]);
    assert_eq!(
        to_json_string(&v),
        "{\"name\":\"a\\\"b\",\"tags\":[1,null],\"ok\":true}"
    );
}

#[test]
fn test_json_escapes_control_characters() {
    let v = Val::Str("a\u{8}b\u{c}c\u{1b}d\te".to_owned());
    assert_eq!(to_json_string(&v), "\"a\\bb\\fc\\u001bd\\te\"");
}

#[test]
fn test_val_eq_is_deep() {
    let a = Val::List(vec![Val::Obj(vec![("k".to_owned(), Val::Int(1))])]);
    let b = Val::List(vec![Val::Obj(vec![("k".to_owned(), Val::Int(1))])]);
    let c = Val::List(vec![Val::Obj(vec![("k".to_owned(), Val::Int(2))])]);
    assert!(val_eq(&a, &b));
    assert!(!val_eq(&a, &c));
}

#[test]
fn test_curl_rendering_with_headers_and_body() {
    let req = RequestInit {
        method: "POST".to_owned(),
        base: "https://api.example.com".to_owned(),
        path: "/pets".to_owned(),
        query: Vec::new(),
        header: vec![("X-Token".to_owned(), Val::Str("abc".to_owned()))],
        cookie: Vec::new(),
        body: Some(Val::Obj(vec![("name".to_owned(), Val::Str("rex".to_owned()))])),
    };
    assert_eq!(
        curl_format(&req).unwrap(),
        "-X POST 'https://api.example.com/pets' -H 'X-Token: abc' -d '{\"name\":\"rex\"}'"
    );
}

#[test]
fn test_fetch_rendering() {
    let req = RequestInit {
        method: "post".to_owned(),
        base: "https://api.example.com".to_owned(),
        path: "/pets".to_owned(),
        query: Vec::new(),
        header: vec![("X-Token".to_owned(), Val::Str("abc".to_owned()))],
        cookie: Vec::new(),
        body: Some(Val::Obj(vec![("name".to_owned(), Val::Str("rex".to_owned()))])),
    };
    let rendered = fetch_format(&req).unwrap();
    assert_eq!(
        rendered,
        "fetch('https://api.example.com/pets', {\n    method: 'POST',\n    headers: {'X-Token': 'abc'},\n    body: '{\"name\":\"rex\"}'\n})\n"
    );
}

#[test]
fn test_invalid_url_is_refused() {
    let req = RequestInit {
        method: "GET".to_owned(),
        base: "".to_owned(),
        path: "nourl".to_owned(),
        query: Vec::new(),
        header: Vec::new(),
        cookie: Vec::new(),
        body: None,
    };
    assert_eq!(
        curl_format(&req).unwrap_err(),
        FormatError::InvalidUrl("nourl".to_owned())
    );
}

#[test]
fn test_formatter_from_str() {
    assert_eq!(Formatter::from_str(&"curl".to_owned()), Ok(Formatter::Curl));
    assert_eq!(Formatter::from_str(&"fetch".to_owned()), Ok(Formatter::Fetch));
    assert_eq!(
        Formatter::from_str(&"wget".to_owned()),
        Err(FromStrError::NoImplements("wget".to_owned()))
    );
}

#[test]
fn test_end_to_end_get_widget() {
    let doc = widgets_doc();

    // The caller supplied the path and method; both must exist.
    let path = "/widgets/{id}".to_owned();
    let pref = find_path(&doc, &path).expect("path exists");
    let pi = doc.path_item(pref).unwrap();
    let op = operation_of(pi, &"GET".to_owned()).expect("method exists");

    let params = resolve_parameters(&doc, op).unwrap();
    let path_params = filter_location(&params, LocKind::Path);
    let query_params = filter_location(&params, LocKind::Query);
    assert_eq!(path_params.len(), 1);
    assert_eq!(query_params.len(), 1);
    assert!(is_effective_required(path_params[0]));
    assert!(!is_effective_required(query_params[0]));

    // Collect `id = 42` interactively.
    let (id_node, id_required, _) = parameter_node(&doc, path_params[0]).unwrap();
    assert!(id_required);
    let w = prompt_builder(&id_node, "id".to_owned(), None, None).unwrap();
    let mut w = w;
    for c in "42".chars() {
        match drive_step(w, Event::Char(c)) {
            DriveResult::Continue(next, None) => w = next,
            _ => unreachable!(),
        }
    }
    let id_value = match drive_step(w, Event::Enter) {
        DriveResult::Done(v) => v,
        _ => unreachable!(),
    };
    assert_eq!(id_value, Val::Int(42));

    // Skip the optional `verbose` parameter.
    let (v_node, v_required, _) = parameter_node(&doc, query_params[0]).unwrap();
    assert!(!v_required);
    let s = optional_prompt_builder(&v_node, "verbose".to_owned(), None, None).unwrap();
    let verbose_value = match drive_skippable_step(s, Event::Esc) {
        DriveSkipResult::Done(v) => v,
        _ => unreachable!(),
    };
    assert_eq!(verbose_value, None);

    assert_eq!(body_node(&doc, op).unwrap(), None);

    let req = build_request(
        "GET".to_owned(),
        "https://api.example.com".to_owned(),
        &path,
        vec![("id".to_owned(), Some(id_value))],
        vec![("verbose".to_owned(), verbose_value)],
        Vec::new(),
        Vec::new(),
        None,
    );
    assert_eq!(req.method, "GET");
    assert_eq!(req.path, "/widgets/42");
    assert_eq!(render_query(&req.query), "");
    assert_eq!(
        curl_format(&req).unwrap(),
        "-X GET 'https://api.example.com/widgets/42'"
    );
}

#[test]
fn test_missing_path_and_method_are_hard_failures() {
    let doc = widgets_doc();
    assert!(find_path(&doc, &"/nope".to_owned()).is_none());
    let pref = find_path(&doc, &"/widgets/{id}".to_owned()).unwrap();
    let pi = doc.path_item(pref).unwrap();
    assert!(operation_of(pi, &"DELETE".to_owned()).is_none());
}

#[test]
fn test_body_requires_json_content() {
    let body = RequestBody {
        content: vec![("text/plain".to_owned(), Some(RefOr::Item(integer_schema())))],
    };
    let op = Operation {
        parameters: Vec::new(),
        request_body: Some(RefOr::Item(body)),
    };
    let doc = widgets_doc();
    assert_eq!(body_node(&doc, &op).unwrap_err(), SchemaError::UnsupportedSchema);
}

#[test]
fn test_body_json_content_is_normalized() {
    let body = RequestBody {
        content: vec![("application/json".to_owned(), Some(RefOr::Item(integer_schema())))],
    };
    let op = Operation {
        parameters: Vec::new(),
        request_body: Some(RefOr::Item(body)),
    };
    let doc = widgets_doc();
    let t = body_node(&doc, &op).unwrap().unwrap();
    assert!(matches!(t.0, oreq::schema::SchemaType::Integer(_)));
    assert!(t.1);
}

#[test]
fn test_content_parameter_is_unsupported() {
    let p = Parameter {
        name: "weird".to_owned(),
        description: None,
        required: true,
        location: ParamLocation::Header,
        format: ParamFormat::Content,
    };
    let doc = widgets_doc();
    assert_eq!(parameter_node(&doc, &p).unwrap_err(), SchemaError::UnsupportedSchema);
}

#[test]
fn test_allow_empty_value_relaxes_required() {
    // An `allow empty` query parameter is a relaxation: it can downgrade
    // a declared requirement, never add one.
    let relaxed = Parameter {
        name: "q".to_owned(),
        description: None,
        required: true,
        location: ParamLocation::Query { allow_empty_value: Some(true) },
        format: ParamFormat::Schema(RefOr::Item(boolean_schema())),
    };
    assert!(!is_effective_required(&relaxed));
    let strict = Parameter {
        name: "q".to_owned(),
        description: None,
        required: true,
        location: ParamLocation::Query { allow_empty_value: None },
        format: ParamFormat::Schema(RefOr::Item(boolean_schema())),
    };
    assert!(is_effective_required(&strict));
    let optional = Parameter {
        name: "q".to_owned(),
        description: None,
        required: false,
        location: ParamLocation::Query { allow_empty_value: Some(false) },
        format: ParamFormat::Schema(RefOr::Item(boolean_schema())),
    };
    assert!(!is_effective_required(&optional));
}

#[test]
fn test_header_and_cookie_keep_present_values_in_order() {
    let req = build_request(
        "GET".to_owned(),
        "https://api.example.com".to_owned(),
        &"/".to_owned(),
        Vec::new(),
        Vec::new(),
        vec![
            ("A".to_owned(), Some(Val::Str("1".to_owned()))),
            ("B".to_owned(), None),
            ("C".to_owned(), Some(Val::Str("3".to_owned()))),
        ],
        vec![("session".to_owned(), Some(Val::Str("s".to_owned())))],
        None,
    );
    assert_eq!(
        req.header,
        vec![
            ("A".to_owned(), Val::Str("1".to_owned())),
            ("C".to_owned(), Val::Str("3".to_owned())),
        ]
    );
    assert_eq!(req.cookie, vec![("session".to_owned(), Val::Str("s".to_owned()))]);
}
