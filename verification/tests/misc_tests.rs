use runtpl::cli::{data_source, Commands, DataSource, TemplateCommands};
use runtpl::error::AppError;
use runtpl::interactive::{document_text_of, interactive_scaffold, scaffold_document, unchanged};
use runtpl::analysis::VarUsage;
use runtpl::template_manager::{
    confirmed, edit_template, get_template_path, keeps_new_template, new_template, remove_template,
    resolve_template_path,
};
use runtpl::value::{resolve_path, value_to_string, Json};
use runtpl::text::chars_of;

#[test]
fn error_messages() {
    assert_eq!(AppError::InvalidArgument("bad".to_string()).to_string(), "bad");
    assert_eq!(AppError::Io("gone".to_string()).to_string(), "IO Error: gone");
    assert_eq!(AppError::Editor("vi".to_string()).to_string(), "Editor Error: vi");
    assert_eq!(AppError::JsonParse("eof".to_string()).to_string(), "JSON Parse Error: eof");
    assert_eq!(AppError::InteractiveAbort("bye".to_string()).to_string(), "bye");
}

#[test]
fn interactive_mode_excludes_data_arguments() {
    assert_eq!(data_source(false, &vec!["a=1".to_string()]), Ok(DataSource::Arguments));
    assert_eq!(data_source(false, &vec![]), Ok(DataSource::Arguments));
    assert_eq!(data_source(true, &vec![]), Ok(DataSource::Interactive));
    assert_eq!(
        data_source(true, &vec!["a=1".to_string()]),
        Err(AppError::InvalidArgument("Cannot use data arguments with --interactive mode.".to_string()))
    );
    let run = Commands::Run {
        template_name: "t".to_string(),
        args: vec![],
        interactive: true,
        no_copy: false,
    };
    assert_eq!(run.source(), Some(Ok(DataSource::Interactive)));
    assert_eq!(Commands::Template { command: TemplateCommands::List }.source(), None);
}

#[test]
fn template_store_rules() {
    assert_eq!(get_template_path("mail"), "mail.tpl");
    assert_eq!(resolve_template_path("t", true, "/g/t.tpl", true, "/g"), Ok("t".to_string()));
    assert_eq!(resolve_template_path("t", false, "/g/t.tpl", true, "/g"), Ok("/g/t.tpl".to_string()));
    assert_eq!(
        resolve_template_path("t", false, "/g/t.tpl", false, "/g"),
        Err(AppError::InvalidArgument(
            "Template 't' not found locally or in the global template directory (/g).".to_string()
        ))
    );
    assert_eq!(new_template("t", false), Ok(()));
    assert_eq!(
        new_template("t", true),
        Err(AppError::InvalidArgument(
            "Template 't' already exists. Use 'runtpl template edit t' to edit it.".to_string()
        ))
    );
    assert_eq!(edit_template("t", true), Ok(()));
    assert_eq!(
        edit_template("t", false),
        Err(AppError::InvalidArgument(
            "Template 't' not found. Use 'runtpl template new t' to create it.".to_string()
        ))
    );
    assert_eq!(remove_template("t", true), Ok(()));
    assert_eq!(
        remove_template("t", false),
        Err(AppError::InvalidArgument(
            "Template 't' not found. Use 'runtpl template list' to see available templates.".to_string()
        ))
    );
    assert!(keeps_new_template(3));
    assert!(!keeps_new_template(0));
    assert!(confirmed("y\n"));
    assert!(confirmed("  Y  "));
    assert!(!confirmed("yes"));
    assert!(!confirmed("n"));
    assert!(!confirmed(""));
}

#[test]
fn interactive_document() {
    let vars = vec![
        ("name".to_string(), VarUsage::Simple),
        ("xs".to_string(), VarUsage::CollectionOfSimple),
    ];
    assert_eq!(
        scaffold_document(&vars),
        Json::Mapping(vec![
            (
                "__comment".to_string(),
                Json::String(
                    "Please fill in the values. An example structure is provided for lists of objects."
                        .to_string()
                )
            ),
            ("name".to_string(), Json::String(String::new())),
            ("xs".to_string(), Json::Sequence(vec![])),
        ])
    );
    assert_eq!(interactive_scaffold("no variables"), None);
    let text = interactive_scaffold("{{name}}{{foreach m in ms}}{{m.id}}{{endfor}}").unwrap().unwrap();
    assert_eq!(
        text,
        "{\n  \"__comment\": \"Please fill in the values. An example structure is provided for lists of objects.\",\n  \"ms\": [\n    {\n      \"id\": \"\"\n    }\n  ],\n  \"name\": \"\"\n}"
    );
    assert_eq!(
        document_text_of(Err("key must be a string".to_string())),
        Err(AppError::JsonParse("Failed to create JSON scaffold: key must be a string".to_string()))
    );
    assert!(unchanged("a\r\nb", "a\nb"));
    assert!(unchanged("", ""));
    assert!(!unchanged("a\nb", "a\nc"));
    assert!(!unchanged("a", "a\n"));
}

#[test]
fn path_lookup_and_value_text() {
    let tree = Json::Mapping(vec![
        ("a".to_string(), Json::Mapping(vec![("b".to_string(), Json::String("deep".to_string()))])),
        ("l".to_string(), Json::Sequence(vec![Json::Null])),
        ("".to_string(), Json::Bool(true)),
    ]);
    assert_eq!(resolve_path(&tree, &chars_of("a.b")), Some(&Json::String("deep".to_string())));
    assert_eq!(resolve_path(&tree, &chars_of("a.c")), None);
    assert_eq!(resolve_path(&tree, &chars_of("a.b.c")), None);
    assert_eq!(resolve_path(&tree, &chars_of("l.0")), None);
    assert_eq!(resolve_path(&tree, &chars_of("")), Some(&Json::Bool(true)));
    assert_eq!(resolve_path(&Json::Null, &chars_of("a")), None);
    assert_eq!(value_to_string(&Json::String("as is \"x\"".to_string())), "as is \"x\"");
    assert_eq!(value_to_string(&tree), "{\"\":true,\"a\":{\"b\":\"deep\"},\"l\":[null]}");
    assert_eq!(value_to_string(&Json::Number("not a number".to_string())), "\"not a number\"");
    let copy = tree.clone();
    assert_eq!(copy, tree);
}
