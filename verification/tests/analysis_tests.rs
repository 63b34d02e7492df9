use runtpl::analysis::{
    analyze_object_structure, build_json_value, extract_variables, field, find_loop_body, put,
    VarUsage,
};
use runtpl::pattern::first_open;
use runtpl::text::chars_of;
use runtpl::value::Json;

fn simple(name: &str) -> (String, VarUsage) {
    (name.to_string(), VarUsage::Simple)
}

#[test]
fn loop_over_a_property_records_the_fields_of_the_item() {
    let vars = extract_variables("{{foreach m in team.members}}{{m.name}}{{endfor}}");
    assert_eq!(
        vars,
        vec![("team".to_string(), VarUsage::CollectionOfObjects(vec![simple("name")]))]
    );
}

#[test]
fn plain_variables_are_simple() {
    let vars = extract_variables("Hi {{ name }}, {{user.email}} and {{name}} again");
    assert_eq!(vars, vec![simple("name"), simple("user")]);
}

#[test]
fn template_without_variables_has_none() {
    assert_eq!(extract_variables("just text {{ }} {{a b}}"), vec![]);
}

#[test]
fn loop_without_field_reads_is_a_list_of_scalars() {
    let vars = extract_variables("{{foreach x in xs}}{{x}}-{{endfor}}");
    assert_eq!(vars, vec![("xs".to_string(), VarUsage::CollectionOfSimple)]);
}

#[test]
fn loop_items_and_reserved_words_are_no_variables() {
    let vars = extract_variables("{{foreach x in xs}}{{x}}{{endfor}}{{endfor}}{{in}}{{x.y}}{{other}}");
    assert_eq!(vars, vec![("xs".to_string(), VarUsage::CollectionOfSimple), simple("other")]);
}

#[test]
fn function_call_loops_name_no_variable() {
    let vars = extract_variables("{{foreach f in files(source: dir)}}{{f.name}}{{endfor}}{{title}}");
    assert_eq!(vars, vec![simple("title")]);
}

#[test]
fn nested_loops_give_nested_shapes() {
    let template = "{{foreach t in teams}}\n{{t.name}}\n{{foreach m in t.members}}\n- {{m.name}} {{m.contact.email}}\n{{foreach r in m.roles}}{{r}}{{endfor}}\n{{endfor}}\n{{foreach g in t.tags}}{{g}}{{endfor}}\n{{endfor}}\n{{footer}}";
    let vars = extract_variables(template);
    assert_eq!(
        vars,
        vec![
            (
                "teams".to_string(),
                VarUsage::CollectionOfObjects(vec![
                    (
                        "members".to_string(),
                        VarUsage::CollectionOfObjects(vec![
                            ("roles".to_string(), VarUsage::CollectionOfSimple),
                            simple("name"),
                            simple("contact"),
                        ])
                    ),
                    ("tags".to_string(), VarUsage::CollectionOfSimple),
                    simple("name"),
                ])
            ),
            simple("footer"),
        ]
    );
}

#[test]
fn second_loop_over_a_variable_replaces_the_first() {
    let vars = extract_variables("{{foreach a in xs}}{{a.p}}{{endfor}}{{foreach b in xs}}{{b.q}}{{endfor}}");
    assert_eq!(vars, vec![("xs".to_string(), VarUsage::CollectionOfObjects(vec![simple("q")]))]);
}

#[test]
fn fields_of_a_loop_item() {
    let body = chars_of("{{m.name}} {{other.x}} {{foreach r in m.roles}}{{r.title}}{{endfor}} {{m.roles}}");
    let item = chars_of("m");
    assert_eq!(
        analyze_object_structure(&body, &item),
        vec![
            ("roles".to_string(), VarUsage::CollectionOfObjects(vec![simple("title")])),
            simple("name"),
        ]
    );
}

#[test]
fn loop_body_ends_at_the_matching_close() {
    let chunk = chars_of("a{{foreach x in xs}}1{{foreach y in ys}}2{{endfor}}3{{endfor}}4{{endfor}}");
    let open = first_open(&chunk, 0).unwrap();
    let body: String = find_loop_body(&chunk, &open).iter().collect();
    assert_eq!(body, "1{{foreach y in ys}}2{{endfor}}3");
    let unclosed = chars_of("{{foreach x in xs}}1{{foreach y in ys}}2{{endfor}}3");
    let open = first_open(&unclosed, 0).unwrap();
    assert_eq!(find_loop_body(&unclosed, &open).len(), 0);
}

#[test]
fn put_replaces_or_adds() {
    let mut fields = vec![simple("a"), simple("b")];
    put(&mut fields, "a".to_string(), VarUsage::CollectionOfSimple);
    put(&mut fields, "c".to_string(), VarUsage::Simple);
    assert_eq!(fields, vec![("a".to_string(), VarUsage::CollectionOfSimple), simple("b"), simple("c")]);
    assert_eq!(field(&fields, &"a".to_string()), Some(&VarUsage::CollectionOfSimple));
    assert_eq!(field(&fields, &"z".to_string()), None);
}

#[test]
fn example_values_follow_the_usage() {
    assert_eq!(build_json_value(&VarUsage::Simple), Json::String(String::new()));
    assert_eq!(build_json_value(&VarUsage::CollectionOfSimple), Json::Sequence(vec![]));
    let usage = VarUsage::CollectionOfObjects(vec![
        simple("name"),
        ("tags".to_string(), VarUsage::CollectionOfSimple),
        ("subs".to_string(), VarUsage::CollectionOfObjects(vec![simple("id")])),
    ]);
    assert_eq!(
        build_json_value(&usage),
        Json::Sequence(vec![Json::Mapping(vec![
            ("name".to_string(), Json::String(String::new())),
            ("tags".to_string(), Json::Sequence(vec![])),
            (
                "subs".to_string(),
                Json::Sequence(vec![Json::Mapping(vec![("id".to_string(), Json::String(String::new()))])])
            ),
        ])])
    );
}
