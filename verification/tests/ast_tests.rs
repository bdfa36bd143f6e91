//! The trees and their small operations.

use avro_idl::ast::{Decimal, Field, HasDefault, Literal, RawField};
use avro_idl::error::AvroError;

fn name(text: &str) -> Option<String> {
    Some(text.to_string())
}

#[test]
fn map_changes_the_value_only() {
    assert_eq!(
        HasDefault::DefaultValue(20).map(|v: i32| v + 1),
        HasDefault::DefaultValue(21)
    );
    assert_eq!(
        HasDefault::DefaultValue("7".to_string()).map(|v: String| v.parse::<i64>().unwrap()),
        HasDefault::DefaultValue(7i64)
    );
    assert_eq!(
        HasDefault::<i32>::DefaultNull.map(|v: i32| v + 1),
        HasDefault::DefaultNull
    );
    assert_eq!(
        HasDefault::<i32>::NoDefault.map(|v: i32| v.to_string()),
        HasDefault::NoDefault
    );
}

#[test]
fn map_to_a_literal() {
    assert_eq!(
        HasDefault::DefaultValue(3).map(Literal::Int),
        HasDefault::DefaultValue(Literal::Int(3))
    );
}

#[test]
fn clone_is_equal() {
    let tree = RawField::Protocol(
        name("P"),
        vec![
            RawField::Record(
                name("R"),
                vec![
                    RawField::Float(
                        name("f"),
                        HasDefault::DefaultValue(Decimal::new("0.5").unwrap()),
                        name("doc"),
                    ),
                    RawField::Array(
                        name("xs"),
                        Box::new(RawField::Unresolved(None, "R".to_string(), None)),
                        HasDefault::DefaultValue(Literal::String("x".to_string())),
                        None,
                    ),
                ],
                name("ns"),
                None,
            ),
            RawField::Import("x.avdl".to_string()),
            RawField::Enum(
                name("E"),
                vec!["A".to_string()],
                HasDefault::DefaultNull,
                None,
                None,
            ),
            RawField::Null,
        ],
        None,
        None,
    );
    assert_eq!(tree.clone(), tree);
    let field = Field::Union(
        name("u"),
        vec![
            Field::RecordReference(None, "R".to_string(), None),
            Field::EnumReference(None, "E".to_string(), HasDefault::NoDefault, None),
            Field::Null,
        ],
        HasDefault::DefaultValue(Literal::Double(Decimal::new("-1.0").unwrap())),
        None,
    );
    assert_eq!(field.clone(), field);
    let failure = AvroError::MissingName("m".to_string());
    assert_eq!(failure.clone(), failure);
}

#[test]
fn name_of_each_kind() {
    assert_eq!(RawField::Protocol(name("p"), vec![], None, None).name(), name("p"));
    assert_eq!(RawField::Int(name("i"), HasDefault::NoDefault, None).name(), name("i"));
    assert_eq!(RawField::Long(name("l"), HasDefault::NoDefault, None).name(), name("l"));
    assert_eq!(RawField::Float(name("f"), HasDefault::NoDefault, None).name(), name("f"));
    assert_eq!(RawField::Double(name("d"), HasDefault::NoDefault, None).name(), name("d"));
    assert_eq!(RawField::Boolean(name("b"), HasDefault::NoDefault, None).name(), name("b"));
    assert_eq!(RawField::String(name("s"), HasDefault::NoDefault, None).name(), name("s"));
    assert_eq!(RawField::Record(name("r"), vec![], None, None).name(), name("r"));
    assert_eq!(
        RawField::Enum(name("e"), vec![], HasDefault::NoDefault, None, None).name(),
        name("e")
    );
    assert_eq!(RawField::Unresolved(name("u"), "T".to_string(), None).name(), name("u"));
    assert_eq!(
        RawField::Union(name("n"), vec![], HasDefault::NoDefault, None).name(),
        name("n")
    );
    assert_eq!(
        RawField::Array(name("a"), Box::new(RawField::Null), HasDefault::NoDefault, None).name(),
        name("a")
    );
    assert_eq!(RawField::Int(None, HasDefault::NoDefault, None).name(), None);
    assert_eq!(RawField::Null.name(), None);
    assert_eq!(RawField::Import("named".to_string()).name(), None);
}

#[test]
fn has_name_compares_the_whole_name() {
    let field = RawField::Record(name("Meal"), vec![], None, None);
    assert!(field.has_name(&"Meal".to_string()));
    assert!(!field.has_name(&"Mea".to_string()));
    assert!(!field.has_name(&"Meals".to_string()));
    assert!(!RawField::Null.has_name(&String::new()));
    assert!(!RawField::Import("Meal".to_string()).has_name(&"Meal".to_string()));
}

#[test]
fn is_resolved_tells_the_placeholder() {
    assert!(RawField::Unresolved(None, "T".to_string(), None).is_resolved());
    assert!(!RawField::Null.is_resolved());
    assert!(!RawField::Int(name("i"), HasDefault::NoDefault, None).is_resolved());
    assert!(!RawField::Import("x".to_string()).is_resolved());
}

#[test]
fn find_field_by_name_gives_the_first_without_default_and_docstring() {
    let tree = RawField::Protocol(
        name("P"),
        vec![
            RawField::Import("E".to_string()),
            RawField::Enum(
                name("E"),
                vec!["A".to_string()],
                HasDefault::DefaultValue("A".to_string()),
                name("ns"),
                name("doc"),
            ),
            RawField::Record(name("E"), vec![], None, None),
            RawField::Int(name("n"), HasDefault::DefaultValue(3), name("count")),
            RawField::Record(
                name("R"),
                vec![RawField::Int(name("inner"), HasDefault::NoDefault, None)],
                name("ns"),
                name("kept"),
            ),
        ],
        None,
        None,
    );
    assert_eq!(
        tree.find_field_by_name("E".to_string()),
        Some(RawField::Enum(
            name("E"),
            vec!["A".to_string()],
            HasDefault::NoDefault,
            name("ns"),
            None
        ))
    );
    assert_eq!(
        tree.find_field_by_name("n".to_string()),
        Some(RawField::Int(name("n"), HasDefault::NoDefault, None))
    );
    assert_eq!(
        tree.find_field_by_name("R".to_string()),
        Some(RawField::Record(
            name("R"),
            vec![RawField::Int(name("inner"), HasDefault::NoDefault, None)],
            name("ns"),
            name("kept"),
        ))
    );
    assert_eq!(tree.find_field_by_name("inner".to_string()), None);
    assert_eq!(tree.find_field_by_name("P".to_string()), None);
    assert_eq!(
        RawField::position_of(
            &vec![RawField::Null, RawField::Record(name("R"), vec![], None, None)],
            &"R".to_string()
        ),
        Some(1)
    );
    assert_eq!(
        RawField::Record(
            name("R"),
            vec![RawField::Int(name("a"), HasDefault::NoDefault, None)],
            None,
            None
        )
        .find_field_by_name("a".to_string()),
        None
    );
}

#[test]
fn avro_type_names() {
    let none = HasDefault::NoDefault;
    assert_eq!(Field::Protocol(None, vec![], None, None).get_avro_type_name(), name("protocol"));
    assert_eq!(Field::Int(None, HasDefault::NoDefault, None).get_avro_type_name(), name("int"));
    assert_eq!(Field::Long(None, HasDefault::NoDefault, None).get_avro_type_name(), name("long"));
    assert_eq!(
        Field::Float(None, HasDefault::NoDefault, None).get_avro_type_name(),
        name("float")
    );
    assert_eq!(
        Field::Double(None, HasDefault::NoDefault, None).get_avro_type_name(),
        name("double")
    );
    assert_eq!(
        Field::Boolean(None, HasDefault::NoDefault, None).get_avro_type_name(),
        name("boolean")
    );
    assert_eq!(
        Field::String(None, HasDefault::NoDefault, None).get_avro_type_name(),
        name("string")
    );
    assert_eq!(Field::Record(name("R"), vec![], None, None).get_avro_type_name(), name("record"));
    assert_eq!(
        Field::Enum(name("E"), vec![], HasDefault::NoDefault, None, None).get_avro_type_name(),
        name("enum")
    );
    assert_eq!(Field::Union(None, vec![], none, None).get_avro_type_name(), name("union"));
    assert_eq!(
        Field::Array(None, Box::new(Field::Null), HasDefault::NoDefault, None)
            .get_avro_type_name(),
        name("array")
    );
    assert_eq!(
        Field::RecordReference(name("r"), "Meal".to_string(), None).get_avro_type_name(),
        name("Meal")
    );
    assert_eq!(
        Field::EnumReference(name("e"), "Kind".to_string(), HasDefault::NoDefault, None)
            .get_avro_type_name(),
        name("Kind")
    );
    assert_eq!(Field::Null.get_avro_type_name(), name("null"));
}

#[test]
fn message_of_each_failure() {
    assert_eq!(AvroError::InvalidASTDataType("a".to_string()).message(), "a");
    assert_eq!(AvroError::FailedParsing("b".to_string()).message(), "b");
    assert_eq!(AvroError::MissingName("c".to_string()).message(), "c");
    assert_eq!(AvroError::UndefinedReference("d".to_string()).message(), "d");
}

#[test]
fn decimal_from_its_text() {
    let d = Decimal::new("12.50").unwrap();
    assert_eq!(d.as_str(), "12.50");
    assert_eq!(d.clone(), d);
    assert_ne!(Decimal::new("12.5").unwrap(), d);
}
