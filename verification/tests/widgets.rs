use oreq::composite::{
    drive_skippable_step, drive_step, optional_prompt_builder, prompt_builder, step,
    widget_validate, ArrayPrompt, DriveResult, DriveSkipResult, ObjectPrompt, Skippable, Widget,
};
use oreq::document::{NumFacets, StrFormat, StringFacets};
use oreq::prompts::{BooleanPrompt, Event, PromptState};
use oreq::schema::{ArrayNorm, SchemaType};
use oreq::validate::{
    is_maximum, is_minimum, is_multiple_of, validate_number, validate_string, RangeValidator,
    Validation,
};
use oreq::value::Val;

fn plain_string_node() -> SchemaType {
    SchemaType::String(StringFacets {
        format: StrFormat::Plain,
        pattern: None,
        enumeration: Vec::new(),
        min_length: None,
        max_length: None,
    })
}

fn integer_node() -> SchemaType {
    SchemaType::Integer(NumFacets {
        multiple_of: None,
        exclusive_minimum: false,
        exclusive_maximum: false,
        minimum: None,
        maximum: None,
        enumeration: Vec::new(),
    })
}

fn enum_string_node(values: &[&str]) -> SchemaType {
    SchemaType::String(StringFacets {
        format: StrFormat::Plain,
        pattern: None,
        enumeration: values.iter().map(|s| (*s).to_owned()).collect(),
        min_length: None,
        max_length: None,
    })
}

fn type_text(w: Widget, text: &str) -> Widget {
    let mut cur = w;
    for c in text.chars() {
        let (next, st) = step(cur, Event::Char(c));
        assert_eq!(st, PromptState::Active);
        cur = next;
    }
    cur
}

#[test]
fn test_range_validator() {
    let validator = RangeValidator { min: Some(1), max: Some(3) };

    assert_eq!(validator.validate(&1i64), Validation::Valid, "1 is in range");
    assert_eq!(
        validator.validate(&0i64),
        Validation::Invalid("Value must be greater than or equal to 1".to_owned()),
        "0 is not in range"
    );
    assert_eq!(
        validator.validate(&4i64),
        Validation::Invalid("Value must be less than or equal to 3".to_owned()),
        "4 is not in range"
    );
}

#[test]
fn test_boolean_prompt() {
    let prompt = BooleanPrompt::new("Do you like Rust?".to_owned(), None);
    let (prompt, st) = prompt.handle(Event::Char('y'));
    assert_eq!(st, PromptState::Submit);
    let v = prompt.submit();
    assert_eq!(v, Val::Bool(true));
}

#[test]
fn test_string_prompt_enum() {
    let node = enum_string_node(&["foo", "bar"]);
    let w = prompt_builder(&node, "select foo".to_owned(), None, None).unwrap();
    match drive_step(w, Event::Enter) {
        DriveResult::Done(v) => assert_eq!(v, Val::Str("foo".to_owned())),
        _ => unreachable!(),
    }
}

#[test]
fn test_string_prompt_skippable() {
    let node = enum_string_node(&["foo", "bar"]);
    let s = optional_prompt_builder(&node, "skip".to_owned(), None, None).unwrap();
    match drive_skippable_step(s, Event::Esc) {
        DriveSkipResult::Done(v) => assert_eq!(v, None),
        _ => unreachable!(),
    }
}

#[test]
fn test_string_prompt_simple() {
    let node = plain_string_node();
    let w = prompt_builder(&node, "string".to_owned(), None, None).unwrap();
    let w = type_text(w, "hello");
    match drive_step(w, Event::Enter) {
        DriveResult::Done(v) => assert!(matches!(v, Val::Str(_))),
        _ => unreachable!(),
    }
}

#[test]
fn test_enumeration_filter() {
    let node = enum_string_node(&["foo", "bar"]);
    let w = prompt_builder(&node, "pick".to_owned(), None, None).unwrap();
    let (w, st) = step(w, Event::Char('b'));
    assert_eq!(st, PromptState::Active);
    match drive_step(w, Event::Enter) {
        DriveResult::Done(v) => assert_eq!(v, Val::Str("bar".to_owned())),
        _ => unreachable!(),
    }
}

#[test]
fn test_array_prompt_max_items() {
    let a = ArrayPrompt {
        message: "list".to_owned(),
        item: Some(Box::new(plain_string_node())),
        min_items: None,
        max_items: Some(2),
        unique_items: false,
        values: vec![Val::Str("a".to_owned()), Val::Str("b".to_owned())],
        child: None,
    };
    let (a2, err) = a.accept(Val::Str("c".to_owned()));
    assert_eq!(err, Some("Array is full".to_owned()));
    assert_eq!(a2.values.len(), 2);
}

#[test]
fn test_array_prompt_unique_items() {
    let a = ArrayPrompt {
        message: "list".to_owned(),
        item: Some(Box::new(plain_string_node())),
        min_items: None,
        max_items: None,
        unique_items: true,
        values: vec![Val::Str("a".to_owned())],
        child: None,
    };
    let (a2, err) = a.accept(Val::Str("a".to_owned()));
    assert_eq!(err, Some("Value already exists".to_owned()));
    assert_eq!(a2.values.len(), 1);
    let (a3, err) = a2.accept(Val::Str("b".to_owned()));
    assert_eq!(err, None);
    assert_eq!(a3.values.len(), 2);
}

#[test]
fn test_array_prompt_min_items_validate() {
    let a = ArrayPrompt {
        message: "list".to_owned(),
        item: Some(Box::new(plain_string_node())),
        min_items: Some(2),
        max_items: None,
        unique_items: false,
        values: vec![Val::Str("a".to_owned())],
        child: None,
    };
    assert_eq!(
        widget_validate(&Widget::Arr(a)),
        Validation::Invalid("Array must have at least 2 items".to_owned())
    );
}

#[test]
fn test_array_prompt_collects_and_finishes() {
    let node = SchemaType::Array(ArrayNorm {
        item: Some(Box::new(integer_node())),
        min_items: None,
        max_items: None,
        unique_items: false,
    });
    let w = prompt_builder(&node, "nums".to_owned(), None, None).unwrap();
    let w = type_text(w, "1");
    let (w, st) = step(w, Event::Enter);
    assert_eq!(st, PromptState::Active);
    let w = type_text(w, "2");
    let (w, st) = step(w, Event::Enter);
    assert_eq!(st, PromptState::Active);
    // Cancelling the active child finishes the array.
    match drive_step(w, Event::Esc) {
        DriveResult::Done(v) => assert_eq!(v, Val::List(vec![Val::Int(1), Val::Int(2)])),
        _ => unreachable!(),
    }
}

#[test]
fn test_object_prompt_required_cancel() {
    let o = ObjectPrompt {
        message: "body".to_owned(),
        pending: Vec::new(),
        current: Some((
            "name".to_owned(),
            true,
            Box::new(Widget::Bool(BooleanPrompt::new("name".to_owned(), None))),
        )),
        collected: Vec::new(),
        inited: true,
    };
    let (o2, err) = o.cancel_current();
    assert_eq!(err, Some("name is required field".to_owned()));
    assert!(o2.current.is_some());
    assert_eq!(o2.collected.len(), 0);
}

#[test]
fn test_object_prompt_optional_cancel_records_absence() {
    let node = SchemaType::Object(vec![
        ("name".to_owned(), (plain_string_node(), true, None)),
        ("age".to_owned(), (integer_node(), false, None)),
    ]);
    let w = prompt_builder(&node, "person".to_owned(), None, None).unwrap();
    let w = type_text(w, "ada");
    let (w, st) = step(w, Event::Enter);
    assert_eq!(st, PromptState::Active);
    // Cancelling the optional property advances and records an absence.
    match drive_step(w, Event::Esc) {
        DriveResult::Done(v) => {
            assert_eq!(v, Val::Obj(vec![("name".to_owned(), Val::Str("ada".to_owned()))]));
        },
        _ => unreachable!(),
    }
}

#[test]
fn test_object_prompt_required_cancel_mid_session() {
    let node = SchemaType::Object(vec![
        ("name".to_owned(), (plain_string_node(), true, None)),
    ]);
    let w = prompt_builder(&node, "person".to_owned(), None, None).unwrap();
    let (_, st) = step(w, Event::Esc);
    assert_eq!(
        st,
        PromptState::Error("name is required field".to_owned())
    );
}

#[test]
fn test_skippable_never_submits_inner() {
    let node = plain_string_node();
    let s = optional_prompt_builder(&node, "note".to_owned(), None, None).unwrap();
    // Interact with the wrapped widget first, then skip mid-way.
    let (s, st) = s.handle(Event::Char('x'));
    assert_eq!(st, PromptState::Active);
    let (s, st) = s.handle(Event::Esc);
    assert_eq!(st, PromptState::Submit);
    assert_eq!(s.validate(), Validation::Valid);
    assert_eq!(s.submit(), None);
}

#[test]
fn test_skippable_passes_value_through() {
    let node = plain_string_node();
    let s = optional_prompt_builder(&node, "note".to_owned(), None, None).unwrap();
    let (s, st) = s.handle(Event::Char('x'));
    assert_eq!(st, PromptState::Active);
    match drive_skippable_step(s, Event::Enter) {
        DriveSkipResult::Done(v) => assert_eq!(v, Some(Val::Str("x".to_owned()))),
        _ => unreachable!(),
    }
}

#[test]
fn test_choice_prompt_resolves_alternative() {
    let node = SchemaType::Choice(vec![plain_string_node(), integer_node()]);
    let w = prompt_builder(&node, "one of".to_owned(), None, None).unwrap();
    let (w, st) = step(w, Event::Down);
    assert_eq!(st, PromptState::Active);
    let (w, st) = step(w, Event::Enter);
    assert_eq!(st, PromptState::Active);
    let w = type_text(w, "5");
    match drive_step(w, Event::Enter) {
        DriveResult::Done(v) => assert_eq!(v, Val::Int(5)),
        _ => unreachable!(),
    }
}

#[test]
fn test_date_prompt_moves_by_day() {
    let node = SchemaType::String(StringFacets {
        format: StrFormat::Date,
        pattern: None,
        enumeration: Vec::new(),
        min_length: None,
        max_length: None,
    });
    let w = prompt_builder(&node, "when".to_owned(), None, None).unwrap();
    let (w, st) = step(w, Event::Right);
    assert_eq!(st, PromptState::Active);
    match drive_step(w, Event::Enter) {
        DriveResult::Done(v) => assert_eq!(v, Val::Str("2000-01-02".to_owned())),
        _ => unreachable!(),
    }
}

#[test]
fn test_password_prompt_masks_render() {
    let node = SchemaType::String(StringFacets {
        format: StrFormat::Password,
        pattern: None,
        enumeration: Vec::new(),
        min_length: None,
        max_length: None,
    });
    let w = prompt_builder(&node, "secret".to_owned(), None, None).unwrap();
    let w = type_text(w, "abc");
    let payload = oreq::render::render(&w);
    assert_eq!(payload.input, "###");
    match drive_step(w, Event::Enter) {
        DriveResult::Done(v) => assert_eq!(v, Val::Str("abc".to_owned())),
        _ => unreachable!(),
    }
}

#[test]
fn test_number_prompt_validates_range() {
    let facets = NumFacets {
        multiple_of: None,
        exclusive_minimum: false,
        exclusive_maximum: false,
        minimum: Some(1),
        maximum: Some(3),
        enumeration: Vec::new(),
    };
    let typed: Vec<char> = "4".chars().collect();
    assert_eq!(
        validate_number(&facets, &typed),
        Validation::Invalid("Value must be between 1 and 3".to_owned())
    );
    let typed: Vec<char> = "2".chars().collect();
    assert_eq!(validate_number(&facets, &typed), Validation::Valid);
    let typed: Vec<char> = "two".chars().collect();
    assert_eq!(
        validate_number(&facets, &typed),
        Validation::Invalid("Value is not a number".to_owned())
    );
}

#[test]
fn test_number_prompt_validates_multiple_of() {
    let facets = NumFacets {
        multiple_of: Some(3),
        exclusive_minimum: false,
        exclusive_maximum: false,
        minimum: None,
        maximum: None,
        enumeration: Vec::new(),
    };
    let typed: Vec<char> = "7".chars().collect();
    assert_eq!(
        validate_number(&facets, &typed),
        Validation::Invalid("Value must be a multiple of 3".to_owned())
    );
    let typed: Vec<char> = "9".chars().collect();
    assert_eq!(validate_number(&facets, &typed), Validation::Valid);
}

#[test]
fn test_string_facets_pattern_and_length() {
    let facets = StringFacets {
        format: StrFormat::Plain,
        pattern: Some("^a+$".to_owned()),
        enumeration: Vec::new(),
        min_length: Some(2),
        max_length: Some(3),
    };
    let typed: Vec<char> = "aaa".chars().collect();
    assert_eq!(validate_string(&facets, &typed), Validation::Valid);
    let typed: Vec<char> = "bb".chars().collect();
    assert_eq!(
        validate_string(&facets, &typed),
        Validation::Invalid("Value does not match pattern: ^a+$".to_owned())
    );
    let typed: Vec<char> = "a".chars().collect();
    assert_eq!(
        validate_string(&facets, &typed),
        Validation::Invalid("Value is too short. Minimum length is 2".to_owned())
    );
    let typed: Vec<char> = "aaaa".chars().collect();
    assert_eq!(
        validate_string(&facets, &typed),
        Validation::Invalid("Value is too long. Maximum length is 3".to_owned())
    );
}

#[test]
fn test_bound_helpers() {
    assert!(is_minimum(5, 5, false));
    assert!(!is_minimum(5, 5, true));
    assert!(is_maximum(5, 5, false));
    assert!(!is_maximum(5, 5, true));
    assert!(is_multiple_of(9, 3));
    assert!(!is_multiple_of(10, 3));
    assert!(is_multiple_of(-9, 3));
    assert!(is_multiple_of(0, 0));
    assert!(!is_multiple_of(4, 0));
}

#[test]
fn test_object_prompt_defaults_skip_queue() {
    let node = SchemaType::Object(vec![
        ("name".to_owned(), (plain_string_node(), true, None)),
        ("age".to_owned(), (integer_node(), false, None)),
    ]);
    let defaults = vec![("name".to_owned(), Val::Str("ada".to_owned()))];
    let w = prompt_builder(&node, "person".to_owned(), None, Some(&defaults)).unwrap();
    // Only `age` is asked; submitting it finishes the object.
    let w = type_text(w, "36");
    match drive_step(w, Event::Enter) {
        DriveResult::Done(v) => {
            assert_eq!(
                v,
                Val::Obj(vec![
                    ("name".to_owned(), Val::Str("ada".to_owned())),
                    ("age".to_owned(), Val::Int(36)),
                ])
            );
        },
        _ => unreachable!(),
    }
}

#[test]
fn test_object_with_everything_defaulted_is_config_error() {
    // With every property answered up front there is nothing to ask.
    let node = SchemaType::Object(vec![("name".to_owned(), (plain_string_node(), true, None))]);
    let defaults = vec![("name".to_owned(), Val::Str("ada".to_owned()))];
    match prompt_builder(&node, "person".to_owned(), None, Some(&defaults)) {
        Err(m) => assert_eq!(m, "No prompt found"),
        Ok(_) => unreachable!(),
    }
}

#[test]
fn test_empty_choice_is_config_error() {
    let node = SchemaType::Choice(Vec::new());
    match prompt_builder(&node, "pick".to_owned(), None, None) {
        Err(m) => assert_eq!(m, "options cannot be empty."),
        Ok(_) => unreachable!(),
    }
}

#[test]
fn test_missing_items_schema_is_config_error() {
    let node = SchemaType::Array(ArrayNorm {
        item: None,
        min_items: None,
        max_items: None,
        unique_items: false,
    });
    match prompt_builder(&node, "list".to_owned(), None, None) {
        Err(m) => assert_eq!(m, "No items schema found"),
        Ok(_) => unreachable!(),
    }
}

#[test]
fn test_ctrl_c_cancels_everywhere() {
    let node = SchemaType::Object(vec![("name".to_owned(), (plain_string_node(), true, None))]);
    let w = prompt_builder(&node, "person".to_owned(), None, None).unwrap();
    let (_, st) = step(w, Event::CtrlC);
    assert_eq!(st, PromptState::Cancel);

    let s = Skippable::new(
        prompt_builder(&plain_string_node(), "x".to_owned(), None, None).unwrap(),
    );
    let (_, st) = s.handle(Event::CtrlC);
    assert_eq!(st, PromptState::Cancel);
}

#[test]
fn test_number_bounds_of_machine_integers() {
    let facets = NumFacets {
        multiple_of: None,
        exclusive_minimum: false,
        exclusive_maximum: false,
        minimum: None,
        maximum: None,
        enumeration: Vec::new(),
    };
    let typed: Vec<char> = "9223372036854775807".chars().collect();
    assert_eq!(validate_number(&facets, &typed), Validation::Valid);
    let typed: Vec<char> = "-9223372036854775808".chars().collect();
    assert_eq!(validate_number(&facets, &typed), Validation::Valid);
    let typed: Vec<char> = "9223372036854775808".chars().collect();
    assert_eq!(
        validate_number(&facets, &typed),
        Validation::Invalid("Value is not a number".to_owned())
    );
    let typed: Vec<char> = "+17".chars().collect();
    assert_eq!(validate_number(&facets, &typed), Validation::Valid);
    let typed: Vec<char> = "".chars().collect();
    assert_eq!(
        validate_number(&facets, &typed),
        Validation::Invalid("Value is not a number".to_owned())
    );
}

#[test]
fn test_number_enumeration_becomes_selection() {
    let node = SchemaType::Integer(NumFacets {
        multiple_of: None,
        exclusive_minimum: false,
        exclusive_maximum: false,
        minimum: None,
        maximum: None,
        enumeration: vec![10, 20],
    });
    let w = prompt_builder(&node, "size".to_owned(), None, None).unwrap();
    let (w, st) = step(w, Event::Down);
    assert_eq!(st, PromptState::Active);
    match drive_step(w, Event::Enter) {
        DriveResult::Done(v) => assert_eq!(v, Val::Int(20)),
        _ => unreachable!(),
    }
}

#[test]
fn test_text_editor_cursor_moves() {
    let node = plain_string_node();
    let w = prompt_builder(&node, "txt".to_owned(), None, None).unwrap();
    let w = type_text(w, "ac");
    let (w, _) = step(w, Event::Left);
    let (w, _) = step(w, Event::Char('b'));
    match drive_step(w, Event::Enter) {
        DriveResult::Done(v) => assert_eq!(v, Val::Str("abc".to_owned())),
        _ => unreachable!(),
    }
}
