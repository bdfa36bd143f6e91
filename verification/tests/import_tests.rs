//! Imports: the lexer asks for a file, and works its declarations in where
//! the import stood.

use avro_idl::ast::{HasDefault, RawField};
use avro_idl::error::AvroError;
use avro_idl::lexer::{AvroIdlLexer, Progress};

fn name(text: &str) -> Option<String> {
    Some(text.to_string())
}

fn record(title: &str, namespace: Option<String>) -> RawField {
    RawField::Record(name(title), vec![], namespace, None)
}

fn needs(referrer: &str, path: &str) -> Progress {
    Progress::NeedsImport {
        referrer: referrer.to_string(),
        path: path.to_string(),
    }
}

#[test]
fn import_is_replaced_in_place_with_the_namespace_of_the_root() {
    let root = "@namespace(\"ns.root\")
protocol Root {
    record A { }
    import idl \"c.avdl\";
    record B { }
}";
    let imported = "@namespace(\"ns.import\")
protocol Imported {
    record C { int x; }
}";
    let mut lexer = AvroIdlLexer::new("dir/root.avdl".to_string());
    assert_eq!(lexer.path(), "dir/root.avdl");
    assert_eq!(
        lexer.parse(root.to_string()),
        Ok(needs("dir/root.avdl", "c.avdl"))
    );
    let done = lexer.parse_idl(imported.to_string(), "dir/c.avdl".to_string());
    let expected = RawField::Protocol(
        name("Root"),
        vec![
            record("A", name("ns.root")),
            RawField::Record(
                name("C"),
                vec![RawField::Int(name("x"), HasDefault::NoDefault, None)],
                name("ns.root"),
                None,
            ),
            record("B", name("ns.root")),
        ],
        name("ns.root"),
        None,
    );
    assert_eq!(done, Ok(Progress::Complete(expected)));
}

#[test]
fn root_without_namespace_takes_the_namespace_away() {
    let root = "protocol Root { import idl \"c.avdl\"; }";
    let imported = "@namespace(\"ns.import\")protocol Imported { enum E { A } = A; }";
    let mut lexer = AvroIdlLexer::new("root.avdl".to_string());
    assert_eq!(lexer.parse(root.to_string()), Ok(needs("root.avdl", "c.avdl")));
    assert_eq!(
        lexer.parse_idl(imported.to_string(), "c.avdl".to_string()),
        Ok(Progress::Complete(RawField::Protocol(
            name("Root"),
            vec![RawField::Enum(
                name("E"),
                vec!["A".to_string()],
                HasDefault::DefaultValue("A".to_string()),
                None,
                None
            )],
            None,
            None
        )))
    );
}

#[test]
fn imports_of_imports_come_in_the_order_of_the_text() {
    let root = "@namespace(\"r\")protocol Root {
        import idl \"one.avdl\";
        record Last { }
        import idl \"three.avdl\";
    }";
    let one = "protocol One {
        record First { }
        import idl \"sub/two.avdl\";
        record Third { }
    }";
    let two = "@namespace(\"two\")protocol Two { record Second { } }";
    let three = "protocol Three { }";
    let mut lexer = AvroIdlLexer::new("a/root.avdl".to_string());
    assert_eq!(lexer.parse(root.to_string()), Ok(needs("a/root.avdl", "one.avdl")));
    assert_eq!(
        lexer.parse_idl(one.to_string(), "a/one.avdl".to_string()),
        Ok(needs("a/one.avdl", "sub/two.avdl"))
    );
    assert_eq!(
        lexer.parse_idl(two.to_string(), "a/sub/two.avdl".to_string()),
        Ok(needs("a/root.avdl", "three.avdl"))
    );
    assert_eq!(
        lexer.parse_idl(three.to_string(), "a/three.avdl".to_string()),
        Ok(Progress::Complete(RawField::Protocol(
            name("Root"),
            vec![
                record("First", name("r")),
                record("Second", name("r")),
                record("Third", name("r")),
                record("Last", name("r")),
            ],
            name("r"),
            None
        )))
    );
}

#[test]
fn failure_in_an_import_is_the_failure_of_the_whole() {
    let root = "protocol Root { import idl \"bad.avdl\"; }";
    let mut lexer = AvroIdlLexer::new("root.avdl".to_string());
    assert_eq!(lexer.parse(root.to_string()), Ok(needs("root.avdl", "bad.avdl")));
    assert_eq!(
        lexer.parse_idl("record R { }".to_string(), "bad.avdl".to_string()),
        Err(AvroError::FailedParsing(
            "expected the keyword 'protocol' at offset 0, found 'r'".to_string()
        ))
    );
    assert_eq!(
        lexer.parse("protocol Again { }".to_string()),
        Ok(Progress::Complete(RawField::Protocol(name("Again"), vec![], None, None)))
    );
}

#[test]
fn lexer_can_be_used_again_when_it_is_done() {
    let mut lexer = AvroIdlLexer::new("root.avdl".to_string());
    assert_eq!(
        lexer.parse("@namespace(\"a\")protocol A { record R { } }".to_string()),
        Ok(Progress::Complete(RawField::Protocol(
            name("A"),
            vec![record("R", name("a"))],
            name("a"),
            None
        )))
    );
    assert_eq!(
        lexer.parse("protocol B { record R { } }".to_string()),
        Ok(Progress::Complete(RawField::Protocol(
            name("B"),
            vec![record("R", None)],
            None,
            None
        )))
    );
}

#[test]
fn failure_of_the_root_text() {
    let mut lexer = AvroIdlLexer::new("root.avdl".to_string());
    assert_eq!(
        lexer.parse("protocol P { } }".to_string()),
        Err(AvroError::FailedParsing(
            "expected the end of the text at offset 15, found '}'".to_string()
        ))
    );
}
