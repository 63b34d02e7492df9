use runtpl::builtin_fns::{contains, file_record, files, files_request, split_commas, strings_of, FilesRequest, FoundFile};
use runtpl::text::chars_of;
use runtpl::value::Json;

fn text(s: &str) -> Json {
    Json::String(s.to_string())
}

fn arg(k: &str, v: Json) -> (String, Json) {
    (k.to_string(), v)
}

fn found(name: &str, path: &str) -> FoundFile {
    FoundFile {
        name: name.to_string(),
        path: path.to_string(),
        absolute_path: format!("/abs/{}", path),
        content: format!("content of {}", name),
    }
}

const SOURCE_MESSAGE: &str = "'files' function requires a 'source' argument. It must be a comma-separated string (e.g., \"./src\") or an array of strings (e.g., [\"./src\", \"./tests\"])";

#[test]
fn request_defaults() {
    let r = files_request(&vec![arg("source", text("./src"))]);
    assert_eq!(
        r,
        Ok(FilesRequest {
            sources: vec!["./src".to_string()],
            recursive: true,
            exclude_names: vec![],
            exclude_paths: vec![],
        })
    );
}

#[test]
fn request_reads_all_arguments() {
    let r = files_request(&vec![
        arg("source", Json::Sequence(vec![text("a"), Json::Bool(true), text("b")])),
        arg("recursive", Json::Bool(false)),
        arg("exclude_names", Json::Sequence(vec![text("x.rs"), Json::Null])),
        arg("exclude_paths", Json::Sequence(vec![text("target")])),
        arg("unknown", Json::Null),
    ])
    .unwrap();
    assert_eq!(r.sources, vec!["a", "b"]);
    assert!(!r.recursive);
    assert_eq!(r.exclude_names, vec!["x.rs"]);
    assert_eq!(r.exclude_paths, vec!["target"]);
    assert_eq!(r.max_depth(), Some(1));
}

#[test]
fn source_string_is_split_at_commas() {
    let r = files_request(&vec![arg("source", text(" ./src , ,./tests,"))]).unwrap();
    assert_eq!(r.sources, vec!["./src", "./tests"]);
    assert_eq!(r.max_depth(), None);
    assert_eq!(split_commas(&chars_of("")), Vec::<String>::new());
    assert_eq!(split_commas(&chars_of("a")), vec!["a"]);
    assert_eq!(strings_of(&vec![Json::Null, text("s")]), vec!["s"]);
}

#[test]
fn missing_or_ill_typed_source_is_an_error() {
    assert_eq!(files_request(&vec![]), Err(text(SOURCE_MESSAGE)));
    assert_eq!(files_request(&vec![arg("source", Json::Bool(true))]), Err(text(SOURCE_MESSAGE)));
    assert_eq!(files(&vec![arg("recursive", Json::Null)], &vec![]), Err(text(SOURCE_MESSAGE)));
}

#[test]
fn ill_typed_options_are_errors_in_order() {
    let src = arg("source", text("a"));
    assert_eq!(
        files_request(&vec![
            arg("source", text("a")),
            arg("recursive", text("yes")),
            arg("exclude_names", text("x")),
        ]),
        Err(text("'recursive' argument must be a boolean (true or false)"))
    );
    assert_eq!(
        files_request(&vec![
            arg("source", text("a")),
            arg("exclude_names", text("x")),
            arg("exclude_paths", text("x")),
        ]),
        Err(text("'exclude_names' argument must be an array of strings"))
    );
    assert_eq!(
        files_request(&vec![src, arg("exclude_paths", Json::Mapping(vec![]))]),
        Err(text("'exclude_paths' argument must be an array of strings"))
    );
}

#[test]
fn selection_by_name_and_path() {
    let r = files_request(&vec![
        arg("source", text("a")),
        arg("exclude_names", Json::Sequence(vec![text("skip.rs")])),
        arg("exclude_paths", Json::Sequence(vec![text("target/"), text(".git")])),
    ])
    .unwrap();
    assert!(r.selects("main.rs", "src/main.rs"));
    assert!(!r.selects("skip.rs", "src/skip.rs"));
    assert!(r.selects("skip.rs.bak", "src/skip.rs.bak"));
    assert!(!r.selects("x", "a/target/x"));
    assert!(!r.selects("config", "a/.git/config"));
    assert!(r.selects("target", "a/target"));
    assert!(contains(&chars_of("abc"), &chars_of("")));
    assert!(contains(&chars_of("abc"), &chars_of("bc")));
    assert!(contains(&chars_of("abc"), &chars_of("abc")));
    assert!(!contains(&chars_of("abc"), &chars_of("abcd")));
    assert!(!contains(&chars_of("abc"), &chars_of("ac")));
    assert!(contains(&chars_of(""), &chars_of("")));
}

#[test]
fn files_makes_records_of_the_files_taken() {
    let args = vec![
        arg("source", text("src")),
        arg("exclude_names", Json::Sequence(vec![text("b.rs")])),
    ];
    let listing = vec![found("a.rs", "src/a.rs"), found("b.rs", "src/b.rs"), found("c.rs", "src/c.rs")];
    assert_eq!(
        files(&args, &listing),
        Ok(Json::Sequence(vec![file_record(&listing[0]), file_record(&listing[2])]))
    );
    assert_eq!(
        file_record(&listing[0]),
        Json::Mapping(vec![
            arg("name", text("a.rs")),
            arg("path", text("src/a.rs")),
            arg("absolute_path", text("/abs/src/a.rs")),
            arg("content", text("content of a.rs")),
        ])
    );
    assert_eq!(files(&args, &vec![]), Ok(Json::Sequence(vec![])));
}
