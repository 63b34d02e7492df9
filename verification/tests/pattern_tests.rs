use runtpl::nesting::find_close;
use runtpl::pattern::{first_open, first_tag, first_var, parse_close, parse_open, parse_var};
use runtpl::text::chars_of;

fn s(v: &[char]) -> String {
    v.iter().collect()
}

#[test]
fn variable_reference_forms() {
    let t = chars_of("{{ a.b_1.C }}x");
    let v = parse_var(&t, 0).unwrap();
    assert_eq!((v.start, s(&v.path), v.end), (0, "a.b_1.C".to_string(), 13));
    assert!(parse_var(&chars_of("{{a}}"), 0).is_some());
    assert!(parse_var(&chars_of("{{\ta\n}}"), 0).is_some());
    assert!(parse_var(&chars_of("{{}}"), 0).is_none());
    assert!(parse_var(&chars_of("{{ a b }}"), 0).is_none());
    assert!(parse_var(&chars_of("{{a.}}"), 0).is_none());
    assert!(parse_var(&chars_of("{{.a}}"), 0).is_none());
    assert!(parse_var(&chars_of("{{a..b}}"), 0).is_none());
    assert!(parse_var(&chars_of("{{a-b}}"), 0).is_none());
    assert!(parse_var(&chars_of("{{a}"), 0).is_none());
    assert!(parse_var(&chars_of("{a}}"), 0).is_none());
    assert!(parse_var(&chars_of("x{{a}}"), 0).is_none());
    assert!(parse_var(&chars_of("{{a}}"), 5).is_none());
}

#[test]
fn first_variable_is_found_from_a_position() {
    let t = chars_of("ab{{x}}cd{{ y.z }}");
    let v = first_var(&t, 0).unwrap();
    assert_eq!((v.start, s(&v.path), v.end), (2, "x".to_string(), 7));
    let v = first_var(&t, 3).unwrap();
    assert_eq!((v.start, s(&v.path), v.end), (9, "y.z".to_string(), 18));
    assert!(first_var(&t, 10).is_none());
}

#[test]
fn loop_open_forms() {
    let t = chars_of("{{foreach item in a.b}}");
    let o = parse_open(&t, 0).unwrap();
    assert_eq!((o.start, o.end, s(&o.item), s(&o.source), o.args), (0, 23, "item".to_string(), "a.b".to_string(), None));
    let t = chars_of("{{foreach  f  in  files( source: \"x\", n: [1,2] )  }}\nrest");
    let o = parse_open(&t, 0).unwrap();
    assert_eq!(s(&o.item), "f");
    assert_eq!(s(&o.source), "files");
    assert_eq!(o.args.map(|a| s(&a)), Some(" source: \"x\", n: [1,2] ".to_string()));
    assert_eq!(o.end, 53);
    let t = chars_of("{{foreach f in g()}}");
    assert_eq!(parse_open(&t, 0).unwrap().args.map(|a| s(&a)), Some(String::new()));
    assert!(parse_open(&chars_of("{{foreach in in in}}"), 0).is_some());
    assert!(parse_open(&chars_of("{{foreachx in xs}}"), 0).is_none());
    assert!(parse_open(&chars_of("{{ foreach x in xs}}"), 0).is_none());
    assert!(parse_open(&chars_of("{{foreach x inxs}}"), 0).is_none());
    assert!(parse_open(&chars_of("{{foreach x in}}"), 0).is_none());
    assert!(parse_open(&chars_of("{{foreach x.y in xs}}"), 0).is_none());
    assert!(parse_open(&chars_of("{{foreach x in xs.}}"), 0).is_none());
    assert!(parse_open(&chars_of("{{foreach x in f(a}}"), 0).is_none());
    assert!(parse_open(&chars_of("{{foreach x in f(a) b}}"), 0).is_none());
    assert!(parse_open(&chars_of("{{foreach x in xs}"), 0).is_none());
}

#[test]
fn loop_tag_takes_leading_space_of_its_line_and_one_line_break() {
    let t = chars_of("a\n \t{{foreach x in xs}}\r\nb");
    let o = first_open(&t, 0).unwrap();
    assert_eq!((o.start, o.end), (2, 25));
    let t = chars_of("a\n\n  {{endfor}}\n\nb");
    let c = first_tag(&t, 0).unwrap();
    assert_eq!((c.opening, c.start, c.end), (false, 2, 16));
    let t = chars_of("  {{endfor}}");
    let c = first_tag(&t, 0).unwrap();
    assert_eq!((c.start, c.end), (0, 12));
    let t = chars_of("a  {{endfor}}  \nb");
    let c = first_tag(&t, 0).unwrap();
    assert_eq!((c.start, c.end), (3, 13));
    let t = chars_of("{{endfor}}\rb");
    assert_eq!(first_tag(&t, 0).unwrap().end, 11);
    let t = chars_of("{{endfor}}\n\nb");
    assert_eq!(first_tag(&t, 0).unwrap().end, 11);
}

#[test]
fn loop_close_form() {
    assert!(parse_close(&chars_of("{{endfor}}"), 0).is_some());
    assert!(parse_close(&chars_of("{{ endfor }}"), 0).is_none());
    assert!(parse_close(&chars_of("{{endfor}"), 0).is_none());
    assert!(parse_close(&chars_of("{{endfors}}"), 0).is_none());
}

#[test]
fn matching_close_skips_inner_loops() {
    let t = chars_of("1{{foreach a in b}}2{{foreach c in d}}3{{endfor}}4{{endfor}}5{{endfor}}6{{endfor}}");
    let c = find_close(&t).unwrap();
    assert_eq!((c.opening, c.start, c.end), (false, 61, 71));
    let t = chars_of("{{endfor}}{{endfor}}");
    assert_eq!(find_close(&t).unwrap().start, 0);
    let t = chars_of("{{foreach a in b}}{{endfor}}{{foreach a in b}}{{endfor}}x{{endfor}}");
    assert_eq!(find_close(&t).unwrap().start, 57);
    assert!(find_close(&chars_of("{{foreach a in b}}{{endfor}}")).is_none());
    assert!(find_close(&chars_of("no tags")).is_none());
}
