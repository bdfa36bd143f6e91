//! The grammar, on whole protocols.

use avro_idl::ast::{Decimal, HasDefault, Literal, RawField};
use avro_idl::lexer::{AvroIdlLexer, Progress};

fn decimal(text: &str) -> Decimal {
    Decimal::new(text).unwrap()
}

fn complete(progress: Progress) -> RawField {
    match progress {
        Progress::Complete(tree) => tree,
        Progress::NeedsImport { referrer, path } => {
            panic!("import of {} from {} in a text without imports", path, referrer)
        }
    }
}

#[test]
fn test_single_protocol() {
    let src = "protocol Event {

enum Meal {
    Dinner,
    Lunch
} = Dinner;

record Lol {
    int a;
    Tob tob;
}

}";
    let mut idl = AvroIdlLexer::new("none".to_string());
    let res = complete(idl.parse_idl(src.to_string(), String::new()).unwrap());
    let expected = RawField::Protocol(
        Some("Event".to_string()),
        vec![
            RawField::Enum(
                Some("Meal".to_string()),
                vec!["Dinner".to_string(), "Lunch".to_string()],
                HasDefault::DefaultValue("Dinner".to_string()),
                None,
                None,
            ),
            RawField::Record(
                Some("Lol".to_string()),
                vec![
                    RawField::Int(Some("a".to_string()), HasDefault::NoDefault, None),
                    RawField::Unresolved(Some("tob".to_string()), "Tob".to_string(), None),
                ],
                None,
                None,
            ),
        ],
        None,
        None,
    );
    assert_eq!(res, expected);
}

#[test]
fn test_enum() {
    let src = "protocol Event {
    enum Meal {
        Dinner,
        Lunch
    } = Dinner;

    enum House {
        Apartment,
        Cottage
    }
}";
    let mut idl = AvroIdlLexer::new("none".to_string());
    let res = complete(idl.parse_idl(src.to_string(), String::new()).unwrap());
    let expected = RawField::Protocol(
        Some("Event".to_string()),
        vec![
            RawField::Enum(
                Some("Meal".to_string()),
                vec!["Dinner".to_string(), "Lunch".to_string()],
                HasDefault::DefaultValue("Dinner".to_string()),
                None,
                None,
            ),
            RawField::Enum(
                Some("House".to_string()),
                vec!["Apartment".to_string(), "Cottage".to_string()],
                HasDefault::NoDefault,
                None,
                None,
            ),
        ],
        None,
        None,
    );

    assert_eq!(res, expected);
}

#[test]
fn test_int() {
    let src = "protocol Event {

    record Tob {
        int? a = 3;
        int? b;
        int? c = null;
    }    
}";
    let mut idl = AvroIdlLexer::new("none".to_string());
    let res = complete(idl.parse_idl(src.to_string(), String::new()).unwrap());
    let expected = RawField::Protocol(
        Some("Event".to_string()),
        vec![RawField::Record(
            Some("Tob".to_string()),
            vec![
                RawField::Union(
                    Some("a".to_string()),
                    vec![RawField::Int(None, HasDefault::NoDefault, None), RawField::Null],
                    HasDefault::DefaultValue(Literal::Int(3)),
                    None,
                ),
                RawField::Union(
                    Some("b".to_string()),
                    vec![RawField::Int(None, HasDefault::NoDefault, None), RawField::Null],
                    HasDefault::NoDefault,
                    None,
                ),
                RawField::Union(
                    Some("c".to_string()),
                    vec![RawField::Int(None, HasDefault::NoDefault, None), RawField::Null],
                    HasDefault::DefaultNull,
                    None,
                ),
            ],
            None,
            None,
        )],
        None,
        None,
    );
    assert_eq!(res, expected);
}

#[test]
fn test_long() {
    let src = "protocol Event {

    record Tob {
        long? a = 3;
        long? b;
        long? c = null;
        long d = 1;
        long e;
    }    
}";
    let mut idl = AvroIdlLexer::new("none".to_string());
    let res = complete(idl.parse_idl(src.to_string(), String::new()).unwrap());
    let expected = RawField::Protocol(
        Some("Event".to_string()),
        vec![RawField::Record(
            Some("Tob".to_string()),
            vec![
                RawField::Union(
                    Some("a".to_string()),
                    vec![RawField::Long(None, HasDefault::NoDefault, None), RawField::Null],
                    HasDefault::DefaultValue(Literal::Long(3)),
                    None,
                ),
                RawField::Union(
                    Some("b".to_string()),
                    vec![RawField::Long(None, HasDefault::NoDefault, None), RawField::Null],
                    HasDefault::NoDefault,
                    None,
                ),
                RawField::Union(
                    Some("c".to_string()),
                    vec![RawField::Long(None, HasDefault::NoDefault, None), RawField::Null],
                    HasDefault::DefaultNull,
                    None,
                ),
                RawField::Long(Some("d".to_string()), HasDefault::DefaultValue(1), None),
                RawField::Long(Some("e".to_string()), HasDefault::NoDefault, None),
            ],
            None,
            None,
        )],
        None,
        None,
    );
    assert_eq!(res, expected);
}

#[test]
fn test_float() {
    let src = "protocol Event {

    record Numbers {
        float? a = 3.0;
        float? b;
        float? c = null;
        float d = 1.0;
        float e;
    }    
}";
    let mut idl = AvroIdlLexer::new("none".to_string());
    let res = complete(idl.parse_idl(src.to_string(), String::new()).unwrap());
    let expected = RawField::Protocol(
        Some("Event".to_string()),
        vec![RawField::Record(
            Some("Numbers".to_string()),
            vec![
                RawField::Union(
                    Some("a".to_string()),
                    vec![
                        RawField::Float(None, HasDefault::NoDefault, None),
                        RawField::Null,
                    ],
                    HasDefault::DefaultValue(Literal::Float(decimal("3.0"))),
                    None,
                ),
                RawField::Union(
                    Some("b".to_string()),
                    vec![
                        RawField::Float(None, HasDefault::NoDefault, None),
                        RawField::Null,
                    ],
                    HasDefault::NoDefault,
                    None,
                ),
                RawField::Union(
                    Some("c".to_string()),
                    vec![
                        RawField::Float(None, HasDefault::NoDefault, None),
                        RawField::Null,
                    ],
                    HasDefault::DefaultNull,
                    None,
                ),
                RawField::Float(Some("d".to_string()), HasDefault::DefaultValue(decimal("1.0")), None),
                RawField::Float(Some("e".to_string()), HasDefault::NoDefault, None),
            ],
            None,
            None,
        )],
        None,
        None,
    );
    assert_eq!(res, expected);
}

#[test]
fn test_double() {
    let src = "protocol Event {

    record Numbers {
        double? a = 3.0;
        double? b;
        double? c = null;
        double d = 1.0;
        double e;
    }    
}";
    let mut idl = AvroIdlLexer::new("none".to_string());
    let res = complete(idl.parse_idl(src.to_string(), String::new()).unwrap());
    let expected = RawField::Protocol(
        Some("Event".to_string()),
        vec![RawField::Record(
            Some("Numbers".to_string()),
            vec![
                RawField::Union(
                    Some("a".to_string()),
                    vec![
                        RawField::Double(None, HasDefault::NoDefault, None),
                        RawField::Null,
                    ],
                    HasDefault::DefaultValue(Literal::Double(decimal("3.0"))),
                    None,
                ),
                RawField::Union(
                    Some("b".to_string()),
                    vec![
                        RawField::Double(None, HasDefault::NoDefault, None),
                        RawField::Null,
                    ],
                    HasDefault::NoDefault,
                    None,
                ),
                RawField::Union(
                    Some("c".to_string()),
                    vec![
                        RawField::Double(None, HasDefault::NoDefault, None),
                        RawField::Null,
                    ],
                    HasDefault::DefaultNull,
                    None,
                ),
                RawField::Double(Some("d".to_string()), HasDefault::DefaultValue(decimal("1.0")), None),
                RawField::Double(Some("e".to_string()), HasDefault::NoDefault, None),
            ],
            None,
            None,
        )],
        None,
        None,
    );
    assert_eq!(res, expected);
}

#[test]
fn test_bool() {
    let src = "protocol Event {

    record Numbers {
        boolean? a = true;
        boolean? b;
        boolean? c = null;
        boolean d = false;
        boolean e;
    }    
}";
    let mut idl = AvroIdlLexer::new("none".to_string());
    let res = complete(idl.parse_idl(src.to_string(), String::new()).unwrap());
    let expected = RawField::Protocol(
        Some("Event".to_string()),
        vec![RawField::Record(
            Some("Numbers".to_string()),
            vec![
                RawField::Union(
                    Some("a".to_string()),
                    vec![
                        RawField::Boolean(None, HasDefault::NoDefault, None),
                        RawField::Null,
                    ],
                    HasDefault::DefaultValue(Literal::Boolean(true)),
                    None,
                ),
                RawField::Union(
                    Some("b".to_string()),
                    vec![
                        RawField::Boolean(None, HasDefault::NoDefault, None),
                        RawField::Null,
                    ],
                    HasDefault::NoDefault,
                    None,
                ),
                RawField::Union(
                    Some("c".to_string()),
                    vec![
                        RawField::Boolean(None, HasDefault::NoDefault, None),
                        RawField::Null,
                    ],
                    HasDefault::DefaultNull,
                    None,
                ),
                RawField::Boolean(
                    Some("d".to_string()),
                    HasDefault::DefaultValue(false),
                    None,
                ),
                RawField::Boolean(Some("e".to_string()), HasDefault::NoDefault, None),
            ],
            None,
            None,
        )],
        None,
        None,
    );
    assert_eq!(res, expected);
}

#[test]
fn test_string() {
    let src = "protocol Event {

    record Numbers {
        string? a = \"hello there\";
        string? b;
        string? c = null;
        string d = \" what ?? is !! going //on<<z\";
        string e;
    }    
}";
    //
    let mut idl = AvroIdlLexer::new("none".to_string());
    let res = complete(idl.parse_idl(src.to_string(), String::new()).unwrap());
    let expected = RawField::Protocol(
        Some("Event".to_string()),
        vec![RawField::Record(
            Some("Numbers".to_string()),
            vec![
                RawField::Union(
                    Some("a".to_string()),
                    vec![
                        RawField::String(None, HasDefault::NoDefault, None),
                        RawField::Null,
                    ],
                    HasDefault::DefaultValue(Literal::String("hello there".to_string())),
                    None,
                ),
                RawField::Union(
                    Some("b".to_string()),
                    vec![
                        RawField::String(None, HasDefault::NoDefault, None),
                        RawField::Null,
                    ],
                    HasDefault::NoDefault,
                    None,
                ),
                RawField::Union(
                    Some("c".to_string()),
                    vec![
                        RawField::String(None, HasDefault::NoDefault, None),
                        RawField::Null,
                    ],
                    HasDefault::DefaultNull,
                    None,
                ),
                RawField::String(
                    Some("d".to_string()),
                    HasDefault::DefaultValue(" what ?? is !! going //on<<z".to_string()),
                    None,
                ),
                RawField::String(Some("e".to_string()), HasDefault::NoDefault, None),
            ],
            None,
            None,
        )],
        None,
        None,
    );
    assert_eq!(res, expected);
}

#[test]
fn test_record_reference() {
    let src = "protocol Event {

    record A {
        string e;
    }

    record B {
        A a;
        A? b;
    }    
}";
    //
    let mut idl = AvroIdlLexer::new("none".to_string());
    let res = complete(idl.parse_idl(src.to_string(), String::new()).unwrap());
    let expected = RawField::Protocol(
        Some("Event".to_string()),
        vec![
            RawField::Record(
                Some("A".to_string()),
                vec![RawField::String(
                    Some("e".to_string()),
                    HasDefault::NoDefault,
                    None,
                )],
                None,
                None,
            ),
            RawField::Record(
                Some("B".to_string()),
                vec![
                    RawField::Unresolved(Some("a".to_string()), "A".to_string(), None),
                    RawField::Union(
                        Some("b".to_string()),
                        vec![
                            RawField::Unresolved(None, "A".to_string(), None),
                            RawField::Null,
                        ],
                        HasDefault::NoDefault,
                        None,
                    ),
                ],
                None,
                None,
            ),
        ],
        None,
        None,
    );
    assert_eq!(res, expected);
}

#[test]
fn test_single_array_in_record() {
    let src = "protocol Event {

    record A {
        array<int> myints;
    }
}";
    //
    let mut idl = AvroIdlLexer::new("none".to_string());
    let res = complete(idl.parse_idl(src.to_string(), String::new()).unwrap());
    let expected = RawField::Protocol(
        Some("Event".to_string()),
        vec![RawField::Record(
            Some("A".to_string()),
            vec![RawField::Array(
                Some("myints".to_string()),
                Box::new(RawField::Int(None, HasDefault::NoDefault, None)),
                HasDefault::NoDefault,
                None,
            )],
            None,
            None,
        )],
        None,
        None,
    );
    assert_eq!(res, expected);
}

#[test]
fn test_multiple_arrays_in_record() {
    let src = "protocol Event {

    record A {
        array<int> myints;
        /** hi */
        array<string> mystrs;
        /** hi */
        array<float> myfloats;
    }
}";
    //
    let mut idl = AvroIdlLexer::new("none".to_string());
    let res = complete(idl.parse_idl(src.to_string(), String::new()).unwrap());
    let expected = RawField::Protocol(
        Some("Event".to_string()),
        vec![RawField::Record(
            Some("A".to_string()),
            vec![
                RawField::Array(
                    Some("myints".to_string()),
                    Box::new(RawField::Int(None, HasDefault::NoDefault, None)),
                    HasDefault::NoDefault,
                    None,
                ),
                RawField::Array(
                    Some("mystrs".to_string()),
                    Box::new(RawField::String(None, HasDefault::NoDefault, None)),
                    HasDefault::NoDefault,
                    Some(String::from("hi")),
                ),
                RawField::Array(
                    Some("myfloats".to_string()),
                    Box::new(RawField::Float(None, HasDefault::NoDefault, None)),
                    HasDefault::NoDefault,
                    Some(String::from("hi")),
                ),
            ],
            None,
            None,
        )],
        None,
        None,
    );
    assert_eq!(res, expected);
}

#[test]
fn test_single_union_in_record() {
    let src = "protocol Event {

    record A {
        union{int, float} mynum;
    }
}";
    //
    let mut idl = AvroIdlLexer::new("none".to_string());
    let res = complete(idl.parse_idl(src.to_string(), String::new()).unwrap());
    let expected = RawField::Protocol(
        Some("Event".to_string()),
        vec![RawField::Record(
            Some("A".to_string()),
            vec![RawField::Union(
                Some("mynum".to_string()),
                vec![
                    RawField::Int(None, HasDefault::NoDefault, None),
                    RawField::Float(None, HasDefault::NoDefault, None),
                ],
                HasDefault::NoDefault,
                None,
            )],
            None,
            None,
        )],
        None,
        None,
    );
    assert_eq!(res, expected);
}

#[test]
fn test_multiple_unions_in_record() {
    let src = "protocol Event {

    record A {
        union{int, float} mynum;
        union{int, string} myval;
        union{int, null} myval2;
        union{double, null} myval3 = null;
        union{double, null} myval4 = -0.21;
    }
}";
    //
    let mut idl = AvroIdlLexer::new("none".to_string());
    let res = complete(idl.parse_idl(src.to_string(), String::new()).unwrap());
    let expected = RawField::Protocol(
        Some("Event".to_string()),
        vec![RawField::Record(
            Some("A".to_string()),
            vec![
                RawField::Union(
                    Some("mynum".to_string()),
                    vec![
                        RawField::Int(None, HasDefault::NoDefault, None),
                        RawField::Float(None, HasDefault::NoDefault, None),
                    ],
                    HasDefault::NoDefault,
                    None,
                ),
                RawField::Union(
                    Some("myval".to_string()),
                    vec![
                        RawField::Int(None, HasDefault::NoDefault, None),
                        RawField::String(None, HasDefault::NoDefault, None),
                    ],
                    HasDefault::NoDefault,
                    None,
                ),
                RawField::Union(
                    Some("myval2".to_string()),
                    vec![RawField::Int(None, HasDefault::NoDefault, None), RawField::Null],
                    HasDefault::NoDefault,
                    None,
                ),
                RawField::Union(
                    Some("myval3".to_string()),
                    vec![
                        RawField::Double(None, HasDefault::NoDefault, None),
                        RawField::Null,
                    ],
                    HasDefault::DefaultNull,
                    None,
                ),
                RawField::Union(
                    Some("myval4".to_string()),
                    vec![
                        RawField::Double(None, HasDefault::NoDefault, None),
                        RawField::Null,
                    ],
                    HasDefault::DefaultValue(Literal::Double(decimal("-0.21"))),
                    None,
                ),
            ],
            None,
            None,
        )],
        None,
        None,
    );
    assert_eq!(res, expected);
}
