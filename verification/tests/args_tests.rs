use runtpl::args::{parse_function_args, resolve_arg_value, split_arguments};
use runtpl::text::chars_of;
use runtpl::value::Json;

fn split(s: &str) -> Vec<String> {
    split_arguments(&chars_of(s)).into_iter().map(|p| p.into_iter().collect()).collect()
}

#[test]
fn comma_inside_brackets_does_not_split() {
    assert_eq!(
        split("exclude_names: [\"a,b\"], recursive: true"),
        vec!["exclude_names: [\"a,b\"]".to_string(), "recursive: true".to_string()]
    );
}

#[test]
fn comma_inside_quotes_or_braces_does_not_split() {
    assert_eq!(split("a: \"x,y\", b: {\"k\": [1,2], \"l\": 3}"), vec!["a: \"x,y\"", "b: {\"k\": [1,2], \"l\": 3}"]);
    assert_eq!(split(" a: 1 ,, b: 2 , "), vec!["a: 1", "", "b: 2"]);
    assert_eq!(split(""), Vec::<String>::new());
}

#[test]
fn values_are_literals_or_paths() {
    let ctx = vec![
        ("dir".to_string(), Json::String("src".to_string())),
        ("cfg".to_string(), Json::Mapping(vec![("deep".to_string(), Json::Bool(true))])),
    ];
    assert_eq!(resolve_arg_value(&chars_of(" \"lit\" "), &ctx), Ok(Json::String("lit".to_string())));
    assert_eq!(resolve_arg_value(&chars_of("12"), &ctx), Ok(Json::Number("12".to_string())));
    assert_eq!(resolve_arg_value(&chars_of("-1.5e3"), &ctx), Ok(Json::Number("-1500.0".to_string())));
    assert_eq!(resolve_arg_value(&chars_of("null"), &ctx), Ok(Json::Null));
    assert_eq!(
        resolve_arg_value(&chars_of("[\"a\", {\"b\": false}]"), &ctx),
        Ok(Json::Sequence(vec![
            Json::String("a".to_string()),
            Json::Mapping(vec![("b".to_string(), Json::Bool(false))]),
        ]))
    );
    assert_eq!(resolve_arg_value(&chars_of("dir"), &ctx), Ok(Json::String("src".to_string())));
    assert_eq!(resolve_arg_value(&chars_of("cfg.deep"), &ctx), Ok(Json::Bool(true)));
    assert_eq!(
        resolve_arg_value(&chars_of("cfg.none"), &ctx),
        Err("Argument value 'cfg.none' is not a valid JSON literal nor a known variable.".to_string())
    );
    assert_eq!(
        resolve_arg_value(&chars_of("  "), &ctx),
        Err("Argument value '' is not a valid JSON literal nor a known variable.".to_string())
    );
}

#[test]
fn argument_text_becomes_a_map() {
    let ctx = vec![("dir".to_string(), Json::String("src".to_string()))];
    assert_eq!(parse_function_args(&chars_of("   "), &ctx), Ok(vec![]));
    assert_eq!(
        parse_function_args(&chars_of("source: dir, exclude_names: [\"a,b\"], recursive: true"), &ctx),
        Ok(vec![
            ("source".to_string(), Json::String("src".to_string())),
            ("exclude_names".to_string(), Json::Sequence(vec![Json::String("a,b".to_string())])),
            ("recursive".to_string(), Json::Bool(true)),
        ])
    );
    assert_eq!(
        parse_function_args(&chars_of("source dir"), &ctx),
        Err("Argument 'source dir' is missing a value".to_string())
    );
    assert_eq!(
        parse_function_args(&chars_of("source:"), &ctx),
        Err("Argument value '' is not a valid JSON literal nor a known variable.".to_string())
    );
}
