use runtpl::context::{classify_arg, inline_value_of, load_value, normalize_string, value_or_text, ArgForm, Context, Input, Loading};
use runtpl::error::AppError;
use runtpl::text::chars_of;
use runtpl::value::Json;

fn text(s: &str) -> Json {
    Json::String(s.to_string())
}

fn strings(v: &[&str]) -> Vec<String> {
    v.iter().map(|s| s.to_string()).collect()
}

#[test]
fn normalizing_strips_the_mark_and_carriage_returns() {
    assert_eq!(normalize_string("\u{feff}a\r\nb\rc\n\r\n"), "a\nb\rc\n\n");
    assert_eq!(normalize_string("a\u{feff}"), "a\u{feff}");
    assert_eq!(normalize_string("\r\r\n"), "\r\n");
    assert_eq!(normalize_string(""), "");
}

#[test]
fn argument_forms() {
    assert_eq!(classify_arg(&chars_of("k@-")), Some(ArgForm::Stdin { key: "k".to_string() }));
    assert_eq!(classify_arg(&chars_of("@-")), Some(ArgForm::Stdin { key: String::new() }));
    assert_eq!(
        classify_arg(&chars_of("k@=p=q@=r")),
        Some(ArgForm::File { key: "k".to_string(), path: "p=q@=r".to_string() })
    );
    assert_eq!(
        classify_arg(&chars_of("a=b@=c")),
        Some(ArgForm::File { key: "a=b".to_string(), path: "c".to_string() })
    );
    assert_eq!(
        classify_arg(&chars_of("k=v=w")),
        Some(ArgForm::Inline { key: "k".to_string(), value: "v=w".to_string() })
    );
    assert_eq!(
        classify_arg(&chars_of("k=x@-")),
        Some(ArgForm::Stdin { key: "k=x".to_string() })
    );
    assert_eq!(classify_arg(&chars_of("plain")), None);
    assert_eq!(classify_arg(&chars_of("k@")), None);
    assert_eq!(classify_arg(&chars_of("")), None);
}

#[test]
fn inline_values() {
    assert_eq!(inline_value_of(&chars_of("Ada")), text("Ada"));
    assert_eq!(inline_value_of(&chars_of("")), text(""));
    assert_eq!(
        inline_value_of(&chars_of(" a , b,,c ,")),
        Json::Sequence(vec![text("a"), text("b"), text(""), text("c"), text("")])
    );
    assert_eq!(inline_value_of(&chars_of("\u{feff}x\r\ny")), text("x\ny"));
}

#[test]
fn loaded_values_are_json_or_text() {
    assert_eq!(load_value("{\"a\": [1, true]}\r\n"), Json::Mapping(vec![(
        "a".to_string(),
        Json::Sequence(vec![Json::Number("1".to_string()), Json::Bool(true)])
    )]));
    assert_eq!(load_value("\u{feff}plain\r\ntext"), text("plain\ntext"));
    assert_eq!(value_or_text(Ok(Json::Null), "x".to_string()), Json::Null);
    assert_eq!(value_or_text(Err("e".to_string()), "x".to_string()), text("x"));
}

#[test]
fn context_from_inline_arguments() {
    let r = Context::from_args(&strings(&["name=Ada", "tags=a, b", "name=Eve"]), &vec![]);
    assert_eq!(
        r,
        Loading::Done(Context(vec![
            ("name".to_string(), text("Ada")),
            ("tags".to_string(), Json::Sequence(vec![text("a"), text("b")])),
            ("name".to_string(), text("Eve")),
        ]))
    );
    assert_eq!(Context::from_args(&vec![], &vec![]), Loading::Done(Context::new()));
}

#[test]
fn context_asks_for_inputs_in_order() {
    let args = strings(&["a@=one.json", "b=2", "c@-", "d@=two.txt"]);
    assert_eq!(Context::from_args(&args, &vec![]), Loading::Needs(Input::File("one.json".to_string())));
    assert_eq!(Context::from_args(&args, &strings(&["[1]"])), Loading::Needs(Input::Stdin));
    assert_eq!(
        Context::from_args(&args, &strings(&["[1]", "in"])),
        Loading::Needs(Input::File("two.txt".to_string()))
    );
    assert_eq!(
        Context::from_args(&args, &strings(&["[1]", "in", "t\r\n"])),
        Loading::Done(Context(vec![
            ("a".to_string(), Json::Sequence(vec![Json::Number("1".to_string())])),
            ("b".to_string(), text("2")),
            ("c".to_string(), text("in")),
            ("d".to_string(), text("t\n")),
        ]))
    );
}

#[test]
fn invalid_argument_fails() {
    let args = strings(&["a=1", "oops", "b@-"]);
    assert_eq!(
        Context::from_args(&args, &vec![]),
        Loading::Failed(AppError::InvalidArgument(
            "Argument 'oops' is not in a valid format (key=value, key@=filepath, or key@-)".to_string()
        ))
    );
    let args = strings(&["a@-", "oops"]);
    assert_eq!(Context::from_args(&args, &vec![]), Loading::Needs(Input::Stdin));
}

#[test]
fn context_from_a_document() {
    assert_eq!(
        Context::from_interactive_json("{\"name\": \"Ada\", \"n\": 2}"),
        Ok(Context(vec![
            ("n".to_string(), Json::Number("2".to_string())),
            ("name".to_string(), text("Ada")),
        ]))
    );
    assert_eq!(
        Context::from_interactive_json("[1, 2]"),
        Err(AppError::JsonParse("Root of the data file must be a JSON object.".to_string()))
    );
    match Context::from_interactive_json("{not json") {
        Err(AppError::JsonParse(msg)) => assert!(msg.contains("line 1"), "{}", msg),
        other => panic!("{:?}", other),
    }
    assert_eq!(
        Context::from_parsed(Err("boom".to_string())),
        Err(AppError::JsonParse("boom".to_string()))
    );
}

#[test]
fn binding_overrides() {
    let mut c = Context::new();
    c.bind("k".to_string(), text("1"));
    c.bind("k".to_string(), text("2"));
    assert_eq!(runtpl::value::lookup(&c.0, &"k".to_string()), Some(&text("2")));
}
