//! Linking, on whole trees.

use avro_idl::ast::{Decimal, Field, HasDefault, Literal, RawField};
use avro_idl::error::AvroError;
use avro_idl::linker::LinkParser;

#[test]
fn test_record_reference_resolve() {
    let src = RawField::Protocol(
        Some("Event".to_string()),
        vec![
            RawField::Enum(
                Some("Meal".to_string()),
                vec!["Dinner".to_string(), "Lunch".to_string()],
                HasDefault::DefaultValue("Dinner".to_string()),
                None,
                None,
            ),
            RawField::Record(
                Some("Lol".to_string()),
                vec![
                    RawField::Int(Some("a".to_string()), HasDefault::NoDefault, None),
                    RawField::Unresolved(Some("meal".to_string()), "Meal".to_string(), None),
                ],
                None,
                None,
            ),
        ],
        None,
        None,
    );

    let linker = LinkParser::new();
    let res = linker.parse(src).unwrap();
    let expected = Field::Protocol(
        Some("Event".to_string()),
        vec![
            Field::Enum(
                Some("Meal".to_string()),
                vec!["Dinner".to_string(), "Lunch".to_string()],
                HasDefault::DefaultValue("Dinner".to_string()),
                None,
                None,
            ),
            Field::Record(
                Some("Lol".to_string()),
                vec![
                    Field::Int(Some("a".to_string()), HasDefault::NoDefault, None),
                    Field::EnumReference(
                        Some("meal".to_string()),
                        "Meal".to_string(),
                        HasDefault::DefaultValue("Dinner".to_string()),
                        None,
                    ),
                ],
                None,
                None,
            ),
        ],
        None,
        None,
    );
    assert_eq!(res, expected);
}

fn name(text: &str) -> Option<String> {
    Some(text.to_string())
}

fn protocol(declarations: Vec<RawField>) -> RawField {
    RawField::Protocol(name("P"), declarations, None, None)
}

fn record(title: &str, fields: Vec<RawField>) -> RawField {
    RawField::Record(name(title), fields, None, None)
}

fn reference(field: &str, target: &str) -> RawField {
    RawField::Unresolved(name(field), target.to_string(), None)
}

fn linked(declarations: Vec<Field>) -> Field {
    Field::Protocol(name("P"), declarations, None, None)
}

#[test]
fn reference_to_a_record_becomes_a_record_reference() {
    let tree = protocol(vec![
        record(
            "A",
            vec![RawField::String(name("s"), HasDefault::NoDefault, None)],
        ),
        record(
            "B",
            vec![RawField::Unresolved(name("a"), "A".to_string(), name("the a"))],
        ),
    ]);
    let expected = linked(vec![
        Field::Record(
            name("A"),
            vec![Field::String(name("s"), HasDefault::NoDefault, None)],
            None,
            None,
        ),
        Field::Record(
            name("B"),
            vec![Field::RecordReference(name("a"), "A".to_string(), name("the a"))],
            None,
            None,
        ),
    ]);
    assert_eq!(LinkParser::new().parse(tree), Ok(expected));
}

#[test]
fn reference_to_an_enum_carries_the_default_of_the_enum() {
    let tree = protocol(vec![
        RawField::Enum(
            name("M"),
            vec!["X".to_string(), "Y".to_string()],
            HasDefault::DefaultValue("X".to_string()),
            None,
            name("the enum"),
        ),
        record("R", vec![reference("m", "M")]),
    ]);
    let expected = linked(vec![
        Field::Enum(
            name("M"),
            vec!["X".to_string(), "Y".to_string()],
            HasDefault::DefaultValue("X".to_string()),
            None,
            name("the enum"),
        ),
        Field::Record(
            name("R"),
            vec![Field::EnumReference(
                name("m"),
                "M".to_string(),
                HasDefault::DefaultValue("X".to_string()),
                None,
            )],
            None,
            None,
        ),
    ]);
    assert_eq!(LinkParser::new().parse(tree), Ok(expected));
}

#[test]
fn reference_to_an_enum_without_default_has_none() {
    let tree = protocol(vec![
        RawField::Enum(name("M"), vec!["X".to_string()], HasDefault::NoDefault, None, None),
        record("R", vec![reference("m", "M")]),
    ]);
    let expected = linked(vec![
        Field::Enum(name("M"), vec!["X".to_string()], HasDefault::NoDefault, None, None),
        Field::Record(
            name("R"),
            vec![Field::EnumReference(name("m"), "M".to_string(), HasDefault::NoDefault, None)],
            None,
            None,
        ),
    ]);
    assert_eq!(LinkParser::new().parse(tree), Ok(expected));
}

#[test]
fn reference_may_come_before_the_declaration() {
    let tree = protocol(vec![
        record("B", vec![reference("a", "A")]),
        record("A", vec![]),
    ]);
    let expected = linked(vec![
        Field::Record(
            name("B"),
            vec![Field::RecordReference(name("a"), "A".to_string(), None)],
            None,
            None,
        ),
        Field::Record(name("A"), vec![], None, None),
    ]);
    assert_eq!(LinkParser::new().parse(tree), Ok(expected));
}

#[test]
fn first_declaration_of_a_name_decides() {
    let tree = protocol(vec![
        RawField::Enum(name("T"), vec!["X".to_string()], HasDefault::NoDefault, None, None),
        record("T", vec![]),
        record("R", vec![reference("t", "T")]),
    ]);
    let res = LinkParser::new().parse(tree).unwrap();
    match res {
        Field::Protocol(_, declarations, _, _) => assert_eq!(
            declarations[2],
            Field::Record(
                name("R"),
                vec![Field::EnumReference(name("t"), "T".to_string(), HasDefault::NoDefault, None)],
                None,
                None
            )
        ),
        other => panic!("{:?}", other),
    }
}

#[test]
fn reference_to_nothing_fails_and_names_the_type() {
    let tree = protocol(vec![record("B", vec![reference("a", "Missing")])]);
    assert_eq!(
        LinkParser::new().parse(tree),
        Err(AvroError::UndefinedReference(
            "Field of type 'Missing' cannot be found!".to_string()
        ))
    );
}

#[test]
fn reference_looks_at_the_declarations_of_the_protocol_only() {
    let tree = protocol(vec![record(
        "Outer",
        vec![record("Inner", vec![]), reference("i", "Inner")],
    )]);
    assert_eq!(
        LinkParser::new().parse(tree),
        Err(AvroError::UndefinedReference(
            "Field of type 'Inner' cannot be found!".to_string()
        ))
    );
}

#[test]
fn reference_inside_union_and_array() {
    let tree = protocol(vec![
        record("A", vec![]),
        record(
            "B",
            vec![
                RawField::Union(
                    name("u"),
                    vec![RawField::Unresolved(None, "A".to_string(), None), RawField::Null],
                    HasDefault::NoDefault,
                    None,
                ),
                RawField::Array(
                    name("xs"),
                    Box::new(RawField::Unresolved(None, "A".to_string(), None)),
                    HasDefault::NoDefault,
                    None,
                ),
            ],
        ),
    ]);
    let expected = linked(vec![
        Field::Record(name("A"), vec![], None, None),
        Field::Record(
            name("B"),
            vec![
                Field::Union(
                    name("u"),
                    vec![Field::RecordReference(None, "A".to_string(), None), Field::Null],
                    HasDefault::NoDefault,
                    None,
                ),
                Field::Array(
                    name("xs"),
                    Box::new(Field::RecordReference(None, "A".to_string(), None)),
                    HasDefault::NoDefault,
                    None,
                ),
            ],
            None,
            None,
        ),
    ]);
    assert_eq!(LinkParser::new().parse(tree), Ok(expected));
}

#[test]
fn reference_to_something_else_is_refused() {
    let tree = protocol(vec![
        RawField::Int(name("N"), HasDefault::NoDefault, None),
        record("B", vec![reference("n", "N")]),
    ]);
    assert_eq!(
        LinkParser::new().parse(tree),
        Err(AvroError::InvalidASTDataType(
            "Only Record and Enum are valid references!".to_string()
        ))
    );
}

#[test]
fn tree_without_protocol_at_the_root_is_refused() {
    assert_eq!(
        LinkParser::new().parse(record("A", vec![])),
        Err(AvroError::InvalidASTDataType("Expected a protocol".to_string()))
    );
    assert_eq!(
        LinkParser::new().parse(RawField::Null),
        Err(AvroError::InvalidASTDataType("Expected a protocol".to_string()))
    );
}

#[test]
fn protocol_inside_a_record_is_refused() {
    let tree = protocol(vec![record(
        "A",
        vec![
            RawField::Int(name("a"), HasDefault::NoDefault, None),
            protocol(vec![]),
        ],
    )]);
    assert_eq!(
        LinkParser::new().parse(tree),
        Err(AvroError::InvalidASTDataType(
            "'Protocol' can only be declared once per file!".to_string()
        ))
    );
}

#[test]
fn import_that_is_left_is_refused() {
    let tree = protocol(vec![
        record("A", vec![]),
        RawField::Import("other.avdl".to_string()),
    ]);
    assert_eq!(
        LinkParser::new().parse(tree),
        Err(AvroError::InvalidASTDataType(
            "'Import' should have been resolved previous to Linking!".to_string()
        ))
    );
    let nested = protocol(vec![record(
        "A",
        vec![RawField::Array(
            name("xs"),
            Box::new(RawField::Import("x".to_string())),
            HasDefault::NoDefault,
            None,
        )],
    )]);
    assert_eq!(
        LinkParser::new().parse(nested),
        Err(AvroError::InvalidASTDataType(
            "'Import' should have been resolved previous to Linking!".to_string()
        ))
    );
}

#[test]
fn first_failure_in_the_order_of_the_tree_is_returned() {
    let tree = protocol(vec![
        record("A", vec![reference("x", "Missing")]),
        RawField::Import("other.avdl".to_string()),
    ]);
    assert_eq!(
        LinkParser::new().parse(tree),
        Err(AvroError::UndefinedReference(
            "Field of type 'Missing' cannot be found!".to_string()
        ))
    );
    let tree = protocol(vec![
        RawField::Import("other.avdl".to_string()),
        record("A", vec![reference("x", "Missing")]),
    ]);
    assert_eq!(
        LinkParser::new().parse(tree),
        Err(AvroError::InvalidASTDataType(
            "'Import' should have been resolved previous to Linking!".to_string()
        ))
    );
}

#[test]
fn tree_without_references_passes_through() {
    let tree = RawField::Protocol(
        name("P"),
        vec![
            RawField::Enum(
                name("E"),
                vec!["A".to_string(), "B".to_string()],
                HasDefault::DefaultNull,
                name("ns"),
                name("doc"),
            ),
            RawField::Record(
                name("R"),
                vec![
                    RawField::Int(name("i"), HasDefault::DefaultValue(-3), name("d")),
                    RawField::Long(name("l"), HasDefault::DefaultValue(1 << 40), None),
                    RawField::Float(
                        name("f"),
                        HasDefault::DefaultValue(Decimal::new("1.5").unwrap()),
                        None,
                    ),
                    RawField::Double(name("g"), HasDefault::DefaultNull, None),
                    RawField::Boolean(name("b"), HasDefault::DefaultValue(true), None),
                    RawField::String(name("s"), HasDefault::DefaultValue("x".to_string()), None),
                    RawField::Union(
                        name("u"),
                        vec![RawField::Int(None, HasDefault::NoDefault, None), RawField::Null],
                        HasDefault::DefaultValue(Literal::Int(3)),
                        None,
                    ),
                    RawField::Array(
                        name("xs"),
                        Box::new(RawField::String(None, HasDefault::NoDefault, None)),
                        HasDefault::NoDefault,
                        None,
                    ),
                    RawField::Record(name("Inner"), vec![], None, None),
                ],
                name("ns"),
                None,
            ),
        ],
        name("ns"),
        name("all of it"),
    );
    let expected = Field::Protocol(
        name("P"),
        vec![
            Field::Enum(
                name("E"),
                vec!["A".to_string(), "B".to_string()],
                HasDefault::DefaultNull,
                name("ns"),
                name("doc"),
            ),
            Field::Record(
                name("R"),
                vec![
                    Field::Int(name("i"), HasDefault::DefaultValue(-3), name("d")),
                    Field::Long(name("l"), HasDefault::DefaultValue(1 << 40), None),
                    Field::Float(
                        name("f"),
                        HasDefault::DefaultValue(Decimal::new("1.5").unwrap()),
                        None,
                    ),
                    Field::Double(name("g"), HasDefault::DefaultNull, None),
                    Field::Boolean(name("b"), HasDefault::DefaultValue(true), None),
                    Field::String(name("s"), HasDefault::DefaultValue("x".to_string()), None),
                    Field::Union(
                        name("u"),
                        vec![Field::Int(None, HasDefault::NoDefault, None), Field::Null],
                        HasDefault::DefaultValue(Literal::Int(3)),
                        None,
                    ),
                    Field::Array(
                        name("xs"),
                        Box::new(Field::String(None, HasDefault::NoDefault, None)),
                        HasDefault::NoDefault,
                        None,
                    ),
                    Field::Record(name("Inner"), vec![], None, None),
                ],
                name("ns"),
                None,
            ),
        ],
        name("ns"),
        name("all of it"),
    );
    assert_eq!(LinkParser::new().parse(tree), Ok(expected));
}

#[test]
fn empty_protocol_links_to_an_empty_protocol() {
    assert_eq!(
        LinkParser::new().parse(RawField::Protocol(None, vec![], None, None)),
        Ok(Field::Protocol(None, vec![], None, None))
    );
}
