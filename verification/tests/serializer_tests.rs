//! Rendering: the document of each kind of node.

use avro_idl::ast::{Decimal, Field, HasDefault, Literal, RawField};
use avro_idl::error::AvroError;
use avro_idl::json::{Json, Members};
use avro_idl::lexer::{AvroIdlLexer, Progress};
use avro_idl::runner::{AvroIdlParser, OutputFormat};
use avro_idl::serializer::AvprSerializer;

fn name(text: &str) -> Option<String> {
    Some(text.to_string())
}

fn text(value: &str) -> Json {
    Json::Text(value.to_string())
}

fn object(members: Vec<(&str, Json)>) -> Json {
    Json::Object(
        members
            .into_iter()
            .map(|(key, value)| (key.to_string(), value))
            .collect(),
    )
}

fn render(field: Field) -> Result<Json, AvroError> {
    AvprSerializer::new(Field::Protocol(name("P"), vec![field], None, None))
        .serialize()
        .map(|json| match json {
            Json::Object(mut members) => match members.remove(1).1 {
                Json::List(mut types) => types.remove(0),
                other => panic!("{:?}", other),
            },
            other => panic!("{:?}", other),
        })
}

#[test]
fn members_keep_their_order() {
    let mut members = Members::new();
    members.add("b", Json::Integer(1));
    members.add("a", Json::Null);
    assert_eq!(
        members.into_object(),
        object(vec![("b", Json::Integer(1)), ("a", Json::Null)])
    );
    assert_eq!(Members::new().into_object(), object(vec![]));
}

#[test]
fn protocol_document() {
    let protocol = Field::Protocol(name("P"), vec![], name("ns"), name("about"));
    assert_eq!(
        AvprSerializer::new(protocol).serialize(),
        Ok(object(vec![
            ("protocol", text("P")),
            ("types", Json::List(vec![])),
            ("namespace", text("ns")),
            ("doc", text("about")),
        ]))
    );
    let protocol = Field::Protocol(name("P"), vec![], None, None);
    assert_eq!(
        AvprSerializer::new(protocol).serialize(),
        Ok(object(vec![("protocol", text("P")), ("types", Json::List(vec![]))]))
    );
}

#[test]
fn nameless_nodes_have_no_document() {
    assert_eq!(
        AvprSerializer::new(Field::Protocol(None, vec![], None, None)).serialize(),
        Err(AvroError::MissingName(
            "Protocol doesn't have a name, but this is required!".to_string()
        ))
    );
    assert_eq!(
        render(Field::Record(None, vec![], None, None)),
        Err(AvroError::MissingName(
            "Record doesn't have a name, but this is required!".to_string()
        ))
    );
    assert_eq!(
        render(Field::Enum(None, vec![], HasDefault::NoDefault, None, None)),
        Err(AvroError::MissingName(
            "Enum doesn't have a name, but this is required!".to_string()
        ))
    );
    assert_eq!(
        render(Field::Null),
        Err(AvroError::InvalidASTDataType(
            "Cannot serialize Field::Null!".to_string()
        ))
    );
}

#[test]
fn failure_inside_a_record_is_the_failure_of_the_protocol() {
    let protocol = Field::Protocol(
        name("P"),
        vec![
            Field::Record(name("A"), vec![], None, None),
            Field::Record(
                name("B"),
                vec![
                    Field::Int(name("i"), HasDefault::NoDefault, None),
                    Field::Null,
                    Field::Record(None, vec![], None, None),
                ],
                None,
                None,
            ),
            Field::Enum(None, vec![], HasDefault::NoDefault, None, None),
        ],
        None,
        None,
    );
    assert_eq!(
        AvprSerializer::new(protocol).serialize(),
        Err(AvroError::InvalidASTDataType(
            "Cannot serialize Field::Null!".to_string()
        ))
    );
}

#[test]
fn primitive_documents() {
    assert_eq!(
        render(Field::Int(name("i"), HasDefault::DefaultValue(-7), name("d"))),
        Ok(object(vec![
            ("name", text("i")),
            ("type", text("int")),
            ("default", Json::Integer(-7)),
            ("doc", text("d")),
        ]))
    );
    assert_eq!(
        render(Field::Int(None, HasDefault::NoDefault, None)),
        Ok(object(vec![("name", Json::Null), ("type", text("int"))]))
    );
    assert_eq!(
        render(Field::Long(name("l"), HasDefault::DefaultValue(1 << 40), None)),
        Ok(object(vec![
            ("name", text("l")),
            ("type", text("long")),
            ("default", Json::Integer(1 << 40)),
        ]))
    );
    assert_eq!(
        render(Field::Long(name("l"), HasDefault::DefaultNull, None)),
        Ok(object(vec![
            ("name", text("l")),
            ("type", text("long")),
            ("default", Json::Null),
        ]))
    );
    assert_eq!(
        render(Field::Float(
            name("f"),
            HasDefault::DefaultValue(Decimal::new("1.5").unwrap()),
            None
        )),
        Ok(object(vec![
            ("name", text("f")),
            ("type", text("float")),
            ("default", Json::Float(Decimal::new("1.5").unwrap())),
        ]))
    );
    assert_eq!(
        render(Field::Double(
            name("g"),
            HasDefault::DefaultValue(Decimal::new("-0.21").unwrap()),
            None
        )),
        Ok(object(vec![
            ("name", text("g")),
            ("type", text("double")),
            ("default", Json::Double(Decimal::new("-0.21").unwrap())),
        ]))
    );
    assert_eq!(
        render(Field::Boolean(name("b"), HasDefault::DefaultValue(false), None)),
        Ok(object(vec![
            ("name", text("b")),
            ("type", text("boolean")),
            ("default", Json::Bool(false)),
        ]))
    );
    assert_eq!(
        render(Field::String(
            name("s"),
            HasDefault::DefaultValue("hello there".to_string()),
            name("greeting")
        )),
        Ok(object(vec![
            ("name", text("s")),
            ("type", text("string")),
            ("default", text("hello there")),
            ("doc", text("greeting")),
        ]))
    );
}

#[test]
fn record_and_enum_documents() {
    assert_eq!(
        render(Field::Record(
            name("R"),
            vec![Field::Boolean(name("b"), HasDefault::NoDefault, None)],
            name("ns"),
            name("doc")
        )),
        Ok(object(vec![
            ("type", text("record")),
            ("name", text("R")),
            (
                "fields",
                Json::List(vec![object(vec![
                    ("name", text("b")),
                    ("type", text("boolean"))
                ])])
            ),
            ("namespace", text("ns")),
            ("doc", text("doc")),
        ]))
    );
    assert_eq!(
        render(Field::Enum(
            name("E"),
            vec!["A".to_string(), "B".to_string()],
            HasDefault::DefaultValue("B".to_string()),
            name("ns"),
            name("doc")
        )),
        Ok(object(vec![
            ("type", text("enum")),
            ("name", text("E")),
            ("symbols", Json::List(vec![text("A"), text("B")])),
            ("default", text("B")),
            ("namespace", text("ns")),
            ("doc", text("doc")),
        ]))
    );
    assert_eq!(
        render(Field::Enum(name("E"), vec![], HasDefault::NoDefault, None, None)),
        Ok(object(vec![
            ("type", text("enum")),
            ("name", text("E")),
            ("symbols", Json::List(vec![])),
        ]))
    );
}

#[test]
fn union_and_array_documents() {
    assert_eq!(
        render(Field::Union(
            name("u"),
            vec![
                Field::Double(None, HasDefault::NoDefault, None),
                Field::RecordReference(None, "Meal".to_string(), None),
                Field::Null,
            ],
            HasDefault::DefaultValue(Literal::Double(Decimal::new("2.0").unwrap())),
            name("doc")
        )),
        Ok(object(vec![
            (
                "type",
                Json::List(vec![text("double"), text("Meal"), text("null")])
            ),
            ("name", text("u")),
            ("default", Json::Double(Decimal::new("2.0").unwrap())),
            ("doc", text("doc")),
        ]))
    );
    let defaults = vec![
        (Literal::Int(3), Json::Integer(3)),
        (Literal::Long(-4), Json::Integer(-4)),
        (
            Literal::Float(Decimal::new("0.5").unwrap()),
            Json::Float(Decimal::new("0.5").unwrap()),
        ),
        (Literal::Boolean(true), Json::Bool(true)),
        (Literal::String("s".to_string()), text("s")),
        (Literal::Null, Json::Null),
    ];
    for (literal, json) in defaults {
        assert_eq!(
            render(Field::Union(None, vec![], HasDefault::DefaultValue(literal), None)),
            Ok(object(vec![
                ("type", Json::List(vec![])),
                ("name", Json::Null),
                ("default", json),
            ]))
        );
    }
    assert_eq!(
        render(Field::Union(name("u"), vec![Field::Null], HasDefault::DefaultNull, None)),
        Ok(object(vec![
            ("type", Json::List(vec![text("null")])),
            ("name", text("u")),
            ("default", Json::Null),
        ]))
    );
    assert_eq!(
        render(Field::Array(
            name("xs"),
            Box::new(Field::EnumReference(None, "Kind".to_string(), HasDefault::NoDefault, None)),
            HasDefault::DefaultValue(Literal::Int(1)),
            name("doc")
        )),
        Ok(object(vec![
            ("type", text("array")),
            ("name", text("xs")),
            ("items", text("Kind")),
            ("doc", text("doc")),
        ]))
    );
}

#[test]
fn reference_documents() {
    assert_eq!(
        render(Field::RecordReference(name("r"), "Meal".to_string(), name("doc"))),
        Ok(object(vec![
            ("name", text("r")),
            ("type", text("Meal")),
            ("doc", text("doc")),
        ]))
    );
    assert_eq!(
        render(Field::EnumReference(
            name("e"),
            "Kind".to_string(),
            HasDefault::DefaultValue("A".to_string()),
            None
        )),
        Ok(object(vec![
            ("name", text("e")),
            ("type", text("Kind")),
            ("default", text("A")),
        ]))
    );
}

#[test]
fn runner_keeps_what_it_was_given() {
    let runner = AvroIdlParser::new("in.avdl".to_string(), "out.avpr".to_string(), OutputFormat::AVPR);
    assert_eq!(runner.path(), "in.avdl");
    assert_eq!(runner.output_path(), "out.avpr");
    assert_eq!(runner.format(), OutputFormat::AVPR);
}

#[test]
fn runner_links_and_renders() {
    let source = "@namespace(\"ns\")
protocol Event {
    /** What was eaten */
    enum Meal { Dinner, Lunch } = Dinner;
    record Visit {
        Meal meal;
        long? at = 3;
    }
}";
    let runner = AvroIdlParser::new("in.avdl".to_string(), "out.avpr".to_string(), OutputFormat::AVPR);
    let mut lexer = AvroIdlLexer::new(runner.path().clone());
    let tree = match lexer.parse(source.to_string()) {
        Ok(Progress::Complete(tree)) => tree,
        other => panic!("{:?}", other),
    };
    assert_eq!(
        runner.parse(tree),
        Ok(object(vec![
            ("protocol", text("Event")),
            (
                "types",
                Json::List(vec![
                    object(vec![
                        ("type", text("enum")),
                        ("name", text("Meal")),
                        ("symbols", Json::List(vec![text("Dinner"), text("Lunch")])),
                        ("default", text("Dinner")),
                        ("namespace", text("ns")),
                        ("doc", text("What was eaten")),
                    ]),
                    object(vec![
                        ("type", text("record")),
                        ("name", text("Visit")),
                        (
                            "fields",
                            Json::List(vec![
                                object(vec![
                                    ("name", text("meal")),
                                    ("type", text("Meal")),
                                    ("default", text("Dinner")),
                                ]),
                                object(vec![
                                    ("type", Json::List(vec![text("long"), text("null")])),
                                    ("name", text("at")),
                                    ("default", Json::Integer(3)),
                                ]),
                            ])
                        ),
                        ("namespace", text("ns")),
                    ]),
                ])
            ),
            ("namespace", text("ns")),
        ]))
    );
}

#[test]
fn runner_returns_the_failure_of_the_step_that_failed() {
    let runner = AvroIdlParser::new("in".to_string(), "out".to_string(), OutputFormat::AVPR);
    assert_eq!(
        runner.parse(RawField::Protocol(
            name("P"),
            vec![RawField::Record(
                name("R"),
                vec![RawField::Unresolved(name("x"), "Nowhere".to_string(), None)],
                None,
                None
            )],
            None,
            None
        )),
        Err(AvroError::UndefinedReference(
            "Field of type 'Nowhere' cannot be found!".to_string()
        ))
    );
    assert_eq!(
        runner.parse(RawField::Protocol(None, vec![], None, None)),
        Err(AvroError::MissingName(
            "Protocol doesn't have a name, but this is required!".to_string()
        ))
    );
    assert_eq!(
        runner.parse(RawField::Null),
        Err(AvroError::InvalidASTDataType("Expected a protocol".to_string()))
    );
}
