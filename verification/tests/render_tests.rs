use runtpl::context::Context;
use runtpl::engine::{render, FunctionCall, Progress};
use runtpl::value::Json;

fn text(s: &str) -> Json {
    Json::String(s.to_string())
}

fn context(entries: Vec<(&str, Json)>) -> Context {
    Context(entries.into_iter().map(|(k, v)| (k.to_string(), v)).collect())
}

fn done(template: &str, ctx: &Context) -> String {
    match render(template, ctx, &vec![]) {
        Progress::Done(out) => out,
        other => panic!("render did not finish: {:?}", other),
    }
}

#[test]
fn literal_text_is_unchanged() {
    let ctx = context(vec![("name", text("Ada"))]);
    let template = "No tags here: { } {{ }} {{a b}} }}{{\n  second line\n";
    assert_eq!(done(template, &ctx), template);
    assert_eq!(done("", &ctx), "");
}

#[test]
fn variable_is_substituted() {
    let ctx = context(vec![("name", text("Ada"))]);
    assert_eq!(done("Hi {{name}}!", &ctx), "Hi Ada!");
    assert_eq!(done("Hi {{  name  }}!", &ctx), "Hi Ada!");
}

#[test]
fn missing_variable_renders_empty() {
    let ctx = context(vec![("name", text("Ada"))]);
    assert_eq!(done("{{missing}}", &ctx), "");
    assert_eq!(done("a{{missing.deeper}}b", &ctx), "ab");
}

#[test]
fn dotted_path_goes_down_the_tree() {
    let ctx = context(vec![(
        "team",
        Json::Mapping(vec![
            ("name".to_string(), text("core")),
            ("lead".to_string(), Json::Mapping(vec![("name".to_string(), text("Ada"))])),
        ]),
    )]);
    assert_eq!(done("{{team.name}}: {{team.lead.name}}", &ctx), "core: Ada");
    assert_eq!(done("{{team.name.first}}", &ctx), "");
}

#[test]
fn later_binding_overrides_earlier_one() {
    let ctx = context(vec![("x", text("old")), ("x", text("new"))]);
    assert_eq!(done("{{x}}", &ctx), "new");
}

#[test]
fn values_that_are_no_strings_render_as_compact_json() {
    let ctx = context(vec![
        ("n", Json::Number("42".to_string())),
        ("f", Json::Number("1.5".to_string())),
        ("b", Json::Bool(true)),
        ("z", Json::Null),
        ("l", Json::Sequence(vec![Json::Number("1".to_string()), text("a\"b")])),
        (
            "m",
            Json::Mapping(vec![
                ("k".to_string(), Json::Bool(false)),
                ("a".to_string(), Json::Null),
            ]),
        ),
    ]);
    assert_eq!(done("{{n}}", &ctx), "42");
    assert_eq!(done("{{f}}", &ctx), "1.5");
    assert_eq!(done("{{b}}", &ctx), "true");
    assert_eq!(done("{{z}}", &ctx), "null");
    assert_eq!(done("{{l}}", &ctx), "[1,\"a\\\"b\"]");
    assert_eq!(done("{{m}}", &ctx), "{\"a\":null,\"k\":false}");
}

#[test]
fn loop_over_list_of_scalars() {
    let ctx = context(vec![("xs", Json::Sequence(vec![text("a"), text("b")]))]);
    assert_eq!(done("{{foreach x in xs}}{{x}}-{{endfor}}", &ctx), "a-b-");
}

#[test]
fn loop_over_a_single_value_runs_once() {
    let ctx = context(vec![("x", text("a"))]);
    assert_eq!(done("{{foreach i in x}}{{i}}{{endfor}}", &ctx), "a");
    let ctx = context(vec![("x", Json::Mapping(vec![("n".to_string(), text("v"))]))]);
    assert_eq!(done("{{foreach i in x}}{{i.n}}{{endfor}}", &ctx), "v");
}

#[test]
fn loop_over_a_missing_path_runs_never() {
    let ctx = context(vec![]);
    assert_eq!(done("a{{foreach i in nothing}}{{i}}{{endfor}}b", &ctx), "ab");
}

#[test]
fn loop_tags_take_their_line() {
    let ctx = context(vec![("xs", Json::Sequence(vec![text("a"), text("b")]))]);
    let template = "Items:\n  {{foreach x in xs}}\n- {{x}}\n  {{endfor}}\nEnd\n";
    assert_eq!(done(template, &ctx), "Items:\n- a\n- b\nEnd\n");
    let crlf = "Items:\r\n{{foreach x in xs}}\r\n- {{x}}\r\n{{endfor}}\r\nEnd";
    assert_eq!(done(crlf, &ctx), "Items:\r\n- a\r\n- b\r\nEnd");
}

#[test]
fn nested_loops_pair_each_open_with_its_own_close() {
    let ctx = context(vec![(
        "as",
        Json::Sequence(vec![
            Json::Mapping(vec![
                ("n".to_string(), text("A")),
                (
                    "bs".to_string(),
                    Json::Sequence(vec![
                        Json::Mapping(vec![
                            ("n".to_string(), text("b1")),
                            ("cs".to_string(), Json::Sequence(vec![text("x"), text("y")])),
                        ]),
                        Json::Mapping(vec![
                            ("n".to_string(), text("b2")),
                            ("cs".to_string(), Json::Sequence(vec![text("z")])),
                        ]),
                    ]),
                ),
                ("ds".to_string(), Json::Sequence(vec![text("d1"), text("d2")])),
            ]),
        ]),
    )]);
    let template = "{{foreach a in as}}<{{a.n}}{{foreach b in a.bs}}({{b.n}}{{foreach c in b.cs}}[{{c}}]{{endfor}}){{endfor}}{{foreach d in a.ds}}/{{d}}{{endfor}}>{{endfor}}!";
    assert_eq!(done(template, &ctx), "<A(b1[x][y])(b2[z])/d1/d2>!");
}

#[test]
fn sibling_loops_are_rendered_left_to_right() {
    let ctx = context(vec![
        ("xs", Json::Sequence(vec![text("1"), text("2")])),
        ("ys", Json::Sequence(vec![text("a")])),
    ]);
    let template = "{{foreach x in xs}}{{x}}{{endfor}}|{{foreach y in ys}}{{y}}{{endfor}}|{{foreach x in xs}}{{x}}{{endfor}}";
    assert_eq!(done(template, &ctx), "12|a|12");
}

#[test]
fn inner_loop_item_shadows_outer_one() {
    let ctx = context(vec![
        ("xs", Json::Sequence(vec![text("o")])),
        ("ys", Json::Sequence(vec![text("i")])),
    ]);
    let template = "{{foreach v in xs}}{{v}}{{foreach v in ys}}{{v}}{{endfor}}{{v}}{{endfor}}";
    assert_eq!(done(template, &ctx), "oio");
}

#[test]
fn unclosed_loop_fails() {
    let ctx = context(vec![("xs", Json::Sequence(vec![text("a")]))]);
    assert_eq!(
        render("{{foreach x in xs}}{{x}}", &ctx, &vec![]),
        Progress::Failed("Loop over 'x' is not closed: no endfor matches its foreach".to_string())
    );
}

#[test]
fn unregistered_function_fails_the_render() {
    let ctx = context(vec![]);
    assert_eq!(
        render("before {{foreach f in nosuch()}}{{f}}{{endfor}} after", &ctx, &vec![]),
        Progress::Failed("Unknown function 'nosuch'".to_string())
    );
}

#[test]
fn function_call_is_reported_and_then_answered() {
    let ctx = context(vec![("dir", text("src"))]);
    let template = "{{foreach f in files(source: dir, recursive: false)}}{{f.name}};{{endfor}}";
    let first = render(template, &ctx, &vec![]);
    assert_eq!(
        first,
        Progress::Call(FunctionCall {
            name: "files".to_string(),
            args: vec![
                ("source".to_string(), text("src")),
                ("recursive".to_string(), Json::Bool(false)),
            ],
        })
    );
    let answer = Json::Sequence(vec![
        Json::Mapping(vec![("name".to_string(), text("a.rs"))]),
        Json::Mapping(vec![("name".to_string(), text("b.rs"))]),
    ]);
    assert_eq!(
        render(template, &ctx, &vec![Ok(answer)]),
        Progress::Done("a.rs;b.rs;".to_string())
    );
}

#[test]
fn calls_are_answered_in_the_order_of_the_text() {
    let ctx = context(vec![]);
    let template = "{{foreach f in files(source: \"a\")}}{{f}}{{foreach g in files(source: f)}}{{g}}{{endfor}}{{endfor}}";
    let one = vec![Ok(Json::Sequence(vec![text("x"), text("y")]))];
    assert_eq!(
        render(template, &ctx, &one),
        Progress::Call(FunctionCall {
            name: "files".to_string(),
            args: vec![("source".to_string(), text("x"))],
        })
    );
    let two = vec![
        Ok(Json::Sequence(vec![text("x"), text("y")])),
        Ok(Json::Sequence(vec![text("1")])),
    ];
    assert_eq!(
        render(template, &ctx, &two),
        Progress::Call(FunctionCall {
            name: "files".to_string(),
            args: vec![("source".to_string(), text("y"))],
        })
    );
    let three = vec![
        Ok(Json::Sequence(vec![text("x"), text("y")])),
        Ok(Json::Sequence(vec![text("1")])),
        Ok(text("2")),
    ];
    assert_eq!(render(template, &ctx, &three), Progress::Done("x1y2".to_string()));
}

#[test]
fn failed_function_fails_the_render_with_its_name() {
    let ctx = context(vec![]);
    let template = "kept? {{foreach f in files(source: \"a\")}}{{f}}{{endfor}}";
    assert_eq!(
        render(template, &ctx, &vec![Err(text("no such directory"))]),
        Progress::Failed("Error in function 'files': no such directory".to_string())
    );
}

#[test]
fn argument_errors_fail_the_render_with_the_function_name() {
    let ctx = context(vec![]);
    assert_eq!(
        render("{{foreach f in files(source: nowhere)}}{{endfor}}", &ctx, &vec![]),
        Progress::Failed(
            "Error in function 'files': Argument value 'nowhere' is not a valid JSON literal nor a known variable."
                .to_string()
        )
    );
    assert_eq!(
        render("{{foreach f in files(source)}}{{endfor}}", &ctx, &vec![]),
        Progress::Failed("Error in function 'files': Argument 'source' is missing a value".to_string())
    );
}
