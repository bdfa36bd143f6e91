//! The grammar of the schema language, as functions of the text.
//!
//! A rule takes the whole text and the position at which to begin. Where the
//! text matches the rule there, the rule gives what it read and the position
//! behind it; where it does not, the rule gives nothing and nothing is
//! consumed. Alternatives are tried in a fixed order and the first that
//! matches is taken. White space is skipped only where a rule says so.

use crate::ast::{HasDefault, LiteralView, RawFieldView};
use crate::scan::{
    comment_close, decimal_end, digits_end, digits_value, ident_end, keyword_end, quoted_end,
    skip_ws, trimmed,
};
use vstd::prelude::*;

verus! {

/// The types that the language has a keyword for.
#[derive(Clone, Copy, Debug, PartialEq, Eq)]
pub enum Primitive {
    Int,
    Long,
    Float,
    Double,
    Boolean,
    String,
}

impl Primitive {
    /// The keyword of the type.
    pub open spec fn keyword(self) -> Seq<char> {
        match self {
            Primitive::Int => "int"@,
            Primitive::Long => "long"@,
            Primitive::Float => "float"@,
            Primitive::Double => "double"@,
            Primitive::Boolean => "boolean"@,
            Primitive::String => "string"@,
        }
    }

    /// A field of the type with the given name, default and docstring.
    pub open spec fn field(
        self,
        name: Option<Seq<char>>,
        default: HasDefault<LiteralView>,
        doc: Option<Seq<char>>,
    ) -> Option<RawFieldView> {
        match (self, default) {
            (Primitive::Int, HasDefault::NoDefault) => Some(
                RawFieldView::Int(name, HasDefault::NoDefault, doc),
            ),
            (Primitive::Int, HasDefault::DefaultValue(LiteralView::Int(v))) => Some(
                RawFieldView::Int(name, HasDefault::DefaultValue(v), doc),
            ),
            (Primitive::Long, HasDefault::NoDefault) => Some(
                RawFieldView::Long(name, HasDefault::NoDefault, doc),
            ),
            (Primitive::Long, HasDefault::DefaultValue(LiteralView::Long(v))) => Some(
                RawFieldView::Long(name, HasDefault::DefaultValue(v), doc),
            ),
            (Primitive::Float, HasDefault::NoDefault) => Some(
                RawFieldView::Float(name, HasDefault::NoDefault, doc),
            ),
            (Primitive::Float, HasDefault::DefaultValue(LiteralView::Float(v))) => Some(
                RawFieldView::Float(name, HasDefault::DefaultValue(v), doc),
            ),
            (Primitive::Double, HasDefault::NoDefault) => Some(
                RawFieldView::Double(name, HasDefault::NoDefault, doc),
            ),
            (Primitive::Double, HasDefault::DefaultValue(LiteralView::Double(v))) => Some(
                RawFieldView::Double(name, HasDefault::DefaultValue(v), doc),
            ),
            (Primitive::Boolean, HasDefault::NoDefault) => Some(
                RawFieldView::Boolean(name, HasDefault::NoDefault, doc),
            ),
            (Primitive::Boolean, HasDefault::DefaultValue(LiteralView::Boolean(v))) => Some(
                RawFieldView::Boolean(name, HasDefault::DefaultValue(v), doc),
            ),
            (Primitive::String, HasDefault::NoDefault) => Some(
                RawFieldView::String(name, HasDefault::NoDefault, doc),
            ),
            (Primitive::String, HasDefault::DefaultValue(LiteralView::String(v))) => Some(
                RawFieldView::String(name, HasDefault::DefaultValue(v), doc),
            ),
            _ => None,
        }
    }

    /// The type alone: no name, no default, no docstring.
    pub open spec fn bare(self) -> RawFieldView {
        match self {
            Primitive::Int => RawFieldView::Int(None, HasDefault::NoDefault, None),
            Primitive::Long => RawFieldView::Long(None, HasDefault::NoDefault, None),
            Primitive::Float => RawFieldView::Float(None, HasDefault::NoDefault, None),
            Primitive::Double => RawFieldView::Double(None, HasDefault::NoDefault, None),
            Primitive::Boolean => RawFieldView::Boolean(None, HasDefault::NoDefault, None),
            Primitive::String => RawFieldView::String(None, HasDefault::NoDefault, None),
        }
    }

    /// The union that `type? name` stands for: the type and null, with the
    /// field's name, default and docstring on the union.
    pub open spec fn nullable(
        self,
        name: Seq<char>,
        default: HasDefault<LiteralView>,
        doc: Option<Seq<char>>,
    ) -> RawFieldView {
        RawFieldView::Union(Some(name), seq![self.bare(), RawFieldView::Null], default, doc)
    }
}

/// What a literal behind `=` says of the default: `null` is the explicit
/// null, anything else is a value.
pub open spec fn default_of(literal: LiteralView) -> HasDefault<LiteralView> {
    match literal {
        LiteralView::Null => HasDefault::DefaultNull,
        _ => HasDefault::DefaultValue(literal),
    }
}

/// The character `c` at `pos`.
pub open spec fn expect(s: Seq<char>, pos: int, c: char) -> Option<int> {
    if 0 <= pos < s.len() && s[pos] == c {
        Some(pos + 1)
    } else {
        None
    }
}

/// White space, then the character `c`.
pub open spec fn expect_after_ws(s: Seq<char>, pos: int, c: char) -> Option<int> {
    expect(s, skip_ws(s, pos), c)
}

/// White space, the character `c`, white space.
pub open spec fn expect_padded(s: Seq<char>, pos: int, c: char) -> Option<int> {
    match expect_after_ws(s, pos, c) {
        Some(end) => Some(skip_ws(s, end)),
        None => None,
    }
}

/// An identifier at `pos`.
pub open spec fn name(s: Seq<char>, pos: int) -> Option<(Seq<char>, int)> {
    match ident_end(s, pos) {
        Some(end) => Some((s.subrange(pos, end), end)),
        None => None,
    }
}

/// White space, an identifier, white space.
pub open spec fn padded_name(s: Seq<char>, pos: int) -> Option<(Seq<char>, int)> {
    match name(s, skip_ws(s, pos)) {
        Some((text, end)) => Some((text, skip_ws(s, end))),
        None => None,
    }
}

/// A docstring with the white space around it: `/**`, anything up to the
/// first `*/`, and that `*/`. What is read is the text in between, trimmed.
pub open spec fn docstring(s: Seq<char>, pos: int) -> Option<(Seq<char>, int)> {
    let open = skip_ws(s, pos);
    if open + 3 <= s.len() && s[open] == '/' && s[open + 1] == '*' && s[open + 2] == '*' {
        match comment_close(s, open + 3) {
            Some(close) => Some((trimmed(s.subrange(open + 3, close)), skip_ws(s, close + 2))),
            None => None,
        }
    } else {
        None
    }
}

/// A docstring, or nothing: without a docstring no white space is consumed.
pub open spec fn optional_docstring(s: Seq<char>, pos: int) -> (Option<Seq<char>>, int) {
    match docstring(s, pos) {
        Some((text, end)) => (Some(text), end),
        None => (None, pos),
    }
}

/// The keyword `null`.
pub open spec fn null_literal(s: Seq<char>, pos: int) -> Option<(LiteralView, int)> {
    match keyword_end(s, pos, "null"@) {
        Some(end) => Some((LiteralView::Null, end)),
        None => None,
    }
}

/// The value that may stand behind `=` on a field of the type `kind`, or the
/// keyword `null`.
///
/// An `int` or a `long` is written in digits and has to fit its type; a
/// `float` or a `double` is a decimal number with a point; a `boolean` is
/// `true` or `false`; a `string` stands in double quotes and holds no double
/// quote.
pub open spec fn primitive_literal(s: Seq<char>, pos: int, kind: Primitive) -> Option<
    (LiteralView, int),
> {
    match kind {
        Primitive::Int => match digits_end(s, pos) {
            Some(end) => if digits_value(s.subrange(pos, end)) <= i32::MAX {
                Some((LiteralView::Int(digits_value(s.subrange(pos, end)) as i32), end))
            } else {
                None
            },
            None => null_literal(s, pos),
        },
        Primitive::Long => match digits_end(s, pos) {
            Some(end) => if digits_value(s.subrange(pos, end)) <= i64::MAX {
                Some((LiteralView::Long(digits_value(s.subrange(pos, end)) as i64), end))
            } else {
                None
            },
            None => null_literal(s, pos),
        },
        Primitive::Float => match decimal_end(s, pos) {
            Some(end) => Some((LiteralView::Float(s.subrange(pos, end)), end)),
            None => null_literal(s, pos),
        },
        Primitive::Double => match decimal_end(s, pos) {
            Some(end) => Some((LiteralView::Double(s.subrange(pos, end)), end)),
            None => null_literal(s, pos),
        },
        Primitive::Boolean => match keyword_end(s, pos, "true"@) {
            Some(end) => Some((LiteralView::Boolean(true), end)),
            None => match keyword_end(s, pos, "false"@) {
                Some(end) => Some((LiteralView::Boolean(false), end)),
                None => null_literal(s, pos),
            },
        },
        Primitive::String => match quoted_end(s, pos) {
            Some(end) => Some((LiteralView::String(s.subrange(pos + 1, end - 1)), end)),
            None => null_literal(s, pos),
        },
    }
}

/// The start of a primitive field: the keyword, directly followed by `?` for
/// the nullable form, and the name of the field. Gives whether the form is
/// the nullable one, the name, and the position behind the white space that
/// follows the name.
pub open spec fn primitive_head(s: Seq<char>, pos: int, kind: Primitive) -> Option<
    (bool, Seq<char>, int),
> {
    match keyword_end(s, skip_ws(s, pos), kind.keyword()) {
        Some(end) => match expect(s, end, '?') {
            Some(marked) => match padded_name(s, marked) {
                Some((text, behind)) => Some((true, text, behind)),
                None => None,
            },
            None => match padded_name(s, end) {
                Some((text, behind)) => Some((false, text, behind)),
                None => None,
            },
        },
        None => None,
    }
}

/// The end of a primitive field: `;` alone, or `=`, a literal of the type and
/// `;`. Without a default nothing behind the `;` is consumed; with one, the
/// white space behind the `;` is.
pub open spec fn primitive_tail(s: Seq<char>, pos: int, kind: Primitive) -> Option<
    (HasDefault<LiteralView>, int),
> {
    match expect(s, pos, ';') {
        Some(end) => Some((HasDefault::NoDefault, end)),
        None => match expect_padded(s, pos, '=') {
            Some(at) => match primitive_literal(s, at, kind) {
                Some((literal, behind)) => match expect_padded(s, behind, ';') {
                    Some(end) => Some((default_of(literal), end)),
                    None => None,
                },
                None => None,
            },
            None => None,
        },
    }
}

/// A field of the primitive type `kind`, behind its docstring.
///
/// `kind name;` and `kind name = value;` give a field of the type, whose
/// default is nothing or the value: a field that cannot be null takes no
/// `null` as its default. `kind? name;`, `kind? name = value;` and
/// `kind? name = null;` give the union of the type and null, with the default
/// on the union and never on the type inside it.
pub open spec fn primitive_field_of(
    s: Seq<char>,
    pos: int,
    doc: Option<Seq<char>>,
    kind: Primitive,
) -> Option<(RawFieldView, int)> {
    match primitive_head(s, pos, kind) {
        Some((nullable, text, at)) => match primitive_tail(s, at, kind) {
            Some((default, end)) => if nullable {
                Some((kind.nullable(text, default, doc), end))
            } else {
                match kind.field(Some(text), default, doc) {
                    Some(field) => Some((field, end)),
                    None => None,
                }
            },
            None => None,
        },
        None => None,
    }
}

/// A primitive field with its optional docstring: the six types are tried in
/// the order int, long, float, double, boolean, string.
pub open spec fn primitive_field(s: Seq<char>, pos: int) -> Option<(RawFieldView, int)> {
    let (doc, at) = optional_docstring(s, pos);
    if primitive_field_of(s, at, doc, Primitive::Int) is Some {
        primitive_field_of(s, at, doc, Primitive::Int)
    } else if primitive_field_of(s, at, doc, Primitive::Long) is Some {
        primitive_field_of(s, at, doc, Primitive::Long)
    } else if primitive_field_of(s, at, doc, Primitive::Float) is Some {
        primitive_field_of(s, at, doc, Primitive::Float)
    } else if primitive_field_of(s, at, doc, Primitive::Double) is Some {
        primitive_field_of(s, at, doc, Primitive::Double)
    } else if primitive_field_of(s, at, doc, Primitive::Boolean) is Some {
        primitive_field_of(s, at, doc, Primitive::Boolean)
    } else {
        primitive_field_of(s, at, doc, Primitive::String)
    }
}

/// The type that a word names where a type stands without a name: one of the
/// six keywords, `null`, or the name of a declared type.
pub open spec fn unnamed_type(word: Seq<char>) -> RawFieldView {
    if word == Primitive::Int.keyword() {
        Primitive::Int.bare()
    } else if word == Primitive::Long.keyword() {
        Primitive::Long.bare()
    } else if word == Primitive::Float.keyword() {
        Primitive::Float.bare()
    } else if word == Primitive::Double.keyword() {
        Primitive::Double.bare()
    } else if word == Primitive::Boolean.keyword() {
        Primitive::Boolean.bare()
    } else if word == Primitive::String.keyword() {
        Primitive::String.bare()
    } else if word == "null"@ {
        RawFieldView::Null
    } else {
        RawFieldView::Unresolved(None, word, None)
    }
}

/// A type without a name, with the white space around it.
pub open spec fn unnamed(s: Seq<char>, pos: int) -> Option<(RawFieldView, int)> {
    match padded_name(s, pos) {
        Some((word, end)) => Some((unnamed_type(word), end)),
        None => None,
    }
}

/// An array field: `array<type> name;` behind its optional docstring. No
/// white space may stand before `array` unless a docstring does, nor between
/// `array` and `<`, nor behind the `;`.
pub open spec fn array_field(s: Seq<char>, pos: int) -> Option<(RawFieldView, int)> {
    let (doc, at) = optional_docstring(s, pos);
    match keyword_end(s, at, "array"@) {
        Some(word_end) => match expect(s, word_end, '<') {
            Some(inside) => match unnamed(s, inside) {
                Some((element, close)) => match expect(s, close, '>') {
                    Some(behind) => match padded_name(s, behind) {
                        Some((text, semi)) => match expect(s, semi, ';') {
                            Some(end) => Some(
                                (
                                    RawFieldView::Array(
                                        Some(text),
                                        Box::new(element),
                                        HasDefault::NoDefault,
                                        doc,
                                    ),
                                    end,
                                ),
                            ),
                            None => None,
                        },
                        None => None,
                    },
                    None => None,
                },
                None => None,
            },
            None => None,
        },
        None => None,
    }
}

/// A reference field: `Type name;` behind white space and an optional
/// docstring. It takes no default.
pub open spec fn reference_field(s: Seq<char>, pos: int) -> Option<(RawFieldView, int)> {
    let (doc, at) = optional_docstring(s, skip_ws(s, pos));
    match name(s, at) {
        Some((target, behind)) => match padded_name(s, behind) {
            Some((text, semi)) => match expect(s, semi, ';') {
                Some(end) => Some((RawFieldView::Unresolved(Some(text), target, doc), end)),
                None => None,
            },
            None => None,
        },
        None => None,
    }
}

/// An optional reference field: `Type? name;`, which stands for the union of
/// the type referred to and null, without a default.
pub open spec fn optional_reference_field(s: Seq<char>, pos: int) -> Option<(RawFieldView, int)> {
    let (doc, at) = optional_docstring(s, skip_ws(s, pos));
    match name(s, at) {
        Some((target, behind)) => match expect(s, behind, '?') {
            Some(marked) => match padded_name(s, marked) {
                Some((text, semi)) => match expect(s, semi, ';') {
                    Some(end) => Some(
                        (
                            RawFieldView::Union(
                                Some(text),
                                seq![
                                    RawFieldView::Unresolved(None, target, None),
                                    RawFieldView::Null,
                                ],
                                HasDefault::NoDefault,
                                doc,
                            ),
                            end,
                        ),
                    ),
                    None => None,
                },
                None => None,
            },
            None => None,
        },
        None => None,
    }
}

/// The members of a union behind the first: each stands behind a comma. A
/// comma that no type follows is not consumed.
pub open spec fn more_members(s: Seq<char>, pos: int, found: Seq<RawFieldView>) -> (
    Seq<RawFieldView>,
    int,
)
    decreases s.len() - pos,
{
    match expect_padded(s, pos, ',') {
        Some(at) => match unnamed(s, at) {
            Some((member, end)) => if pos < end <= s.len() {
                more_members(s, end, found.push(member))
            } else {
                (found, pos)
            },
            None => (found, pos),
        },
        None => (found, pos),
    }
}

/// The members of a union: types without names, with commas between them.
/// There may be none.
pub open spec fn members(s: Seq<char>, pos: int) -> (Seq<RawFieldView>, int) {
    match unnamed(s, pos) {
        Some((member, end)) => more_members(s, end, seq![member]),
        None => (Seq::empty(), pos),
    }
}

/// The literal that may stand behind `=` on a union: `false`, `true`, `null`,
/// a decimal number with a point, a number in digits that fits an `int`, or
/// an identifier in double quotes; tried in that order.
pub open spec fn union_literal(s: Seq<char>, pos: int) -> Option<(LiteralView, int)> {
    if keyword_end(s, pos, "false"@) is Some {
        Some((LiteralView::Boolean(false), keyword_end(s, pos, "false"@)->Some_0))
    } else if keyword_end(s, pos, "true"@) is Some {
        Some((LiteralView::Boolean(true), keyword_end(s, pos, "true"@)->Some_0))
    } else if null_literal(s, pos) is Some {
        null_literal(s, pos)
    } else if decimal_end(s, pos) is Some {
        let end = decimal_end(s, pos)->Some_0;
        Some((LiteralView::Double(s.subrange(pos, end)), end))
    } else if digits_end(s, pos) is Some {
        let end = digits_end(s, pos)->Some_0;
        if digits_value(s.subrange(pos, end)) <= i32::MAX {
            Some((LiteralView::Int(digits_value(s.subrange(pos, end)) as i32), end))
        } else {
            None
        }
    } else {
        match expect(s, pos, '"') {
            Some(inside) => match name(s, inside) {
                Some((text, close)) => match expect(s, close, '"') {
                    Some(end) => Some((LiteralView::String(text), end)),
                    None => None,
                },
                None => None,
            },
            None => None,
        }
    }
}

/// The end of a union field: `;`, or `=`, a literal and `;`.
pub open spec fn union_tail(s: Seq<char>, pos: int) -> Option<(HasDefault<LiteralView>, int)> {
    match expect_padded(s, pos, ';') {
        Some(end) => Some((HasDefault::NoDefault, end)),
        None => match expect_padded(s, pos, '=') {
            Some(at) => match union_literal(s, at) {
                Some((literal, behind)) => match expect_padded(s, behind, ';') {
                    Some(end) => Some((default_of(literal), end)),
                    None => None,
                },
                None => None,
            },
            None => None,
        },
    }
}

/// A union field: `union { types } name;` or `union { types } name = literal;`
/// behind its optional docstring.
pub open spec fn union_field(s: Seq<char>, pos: int) -> Option<(RawFieldView, int)> {
    let (doc, at) = optional_docstring(s, pos);
    match keyword_end(s, skip_ws(s, at), "union"@) {
        Some(word_end) => match expect_padded(s, word_end, '{') {
            Some(inside) => {
                let (types, close) = members(s, inside);
                match expect_padded(s, close, '}') {
                    Some(behind) => match padded_name(s, behind) {
                        Some((text, tail)) => match union_tail(s, tail) {
                            Some((default, end)) => Some(
                                (RawFieldView::Union(Some(text), types, default, doc), end),
                            ),
                            None => None,
                        },
                        None => None,
                    },
                    None => None,
                }
            },
            None => None,
        },
        None => None,
    }
}

/// A field of a record: a primitive field, an array, a reference, an optional
/// reference or a union; tried in that order.
pub open spec fn record_field(s: Seq<char>, pos: int) -> Option<(RawFieldView, int)> {
    if primitive_field(s, pos) is Some {
        primitive_field(s, pos)
    } else if array_field(s, pos) is Some {
        array_field(s, pos)
    } else if reference_field(s, pos) is Some {
        reference_field(s, pos)
    } else if optional_reference_field(s, pos) is Some {
        optional_reference_field(s, pos)
    } else {
        union_field(s, pos)
    }
}

/// The fields of a record from `pos` on, behind those already `found`: as
/// many as match, one after the other.
pub open spec fn record_fields(s: Seq<char>, pos: int, found: Seq<RawFieldView>) -> (
    Seq<RawFieldView>,
    int,
)
    decreases s.len() - pos,
{
    match record_field(s, pos) {
        Some((field, end)) => if pos < end <= s.len() {
            record_fields(s, end, found.push(field))
        } else {
            (found, pos)
        },
        None => (found, pos),
    }
}

/// The opening of a record: `record Name {` behind white space and an
/// optional docstring. Gives the docstring, the name and the position of
/// what follows the `{` and the white space behind it.
pub open spec fn record_opening(s: Seq<char>, pos: int) -> Option<
    (Option<Seq<char>>, Seq<char>, int),
> {
    let (doc, at) = optional_docstring(s, skip_ws(s, pos));
    match keyword_end(s, at, "record"@) {
        Some(word_end) => match name(s, skip_ws(s, word_end)) {
            Some((text, behind)) => match expect_padded(s, behind, '{') {
                Some(inside) => Some((doc, text, inside)),
                None => None,
            },
            None => None,
        },
        None => None,
    }
}

/// The declaration of a record: `record Name { fields }` behind white space
/// and an optional docstring. The record has no namespace yet.
pub open spec fn record_declaration(s: Seq<char>, pos: int) -> Option<(RawFieldView, int)> {
    match record_opening(s, pos) {
        Some((doc, text, inside)) => {
            let (fields, close) = record_fields(s, inside, Seq::empty());
            match expect_padded(s, close, '}') {
                Some(end) => Some((RawFieldView::Record(Some(text), fields, None, doc), end)),
                None => None,
            }
        },
        None => None,
    }
}

/// The symbols of an enum that a comma follows, from `pos` on, behind those
/// already `found`.
pub open spec fn leading_symbols(s: Seq<char>, pos: int, found: Seq<Seq<char>>) -> (
    Seq<Seq<char>>,
    int,
)
    decreases s.len() - pos,
{
    match padded_name(s, pos) {
        Some((symbol, comma)) => match expect(s, comma, ',') {
            Some(end) => if pos < end <= s.len() {
                leading_symbols(s, end, found.push(symbol))
            } else {
                (found, pos)
            },
            None => (found, pos),
        },
        None => (found, pos),
    }
}

/// The symbols of an enum: at least one, with commas between them and none
/// behind the last.
pub open spec fn symbols(s: Seq<char>, pos: int) -> Option<(Seq<Seq<char>>, int)> {
    let (leading, at) = leading_symbols(s, pos, Seq::empty());
    match padded_name(s, at) {
        Some((last, end)) => Some((leading.push(last), end)),
        None => None,
    }
}

/// The default of an enum: `= Symbol;`.
pub open spec fn enum_default(s: Seq<char>, pos: int) -> Option<(Seq<char>, int)> {
    match expect_padded(s, pos, '=') {
        Some(at) => match padded_name(s, at) {
            Some((symbol, semi)) => match expect_padded(s, semi, ';') {
                Some(end) => Some((symbol, end)),
                None => None,
            },
            None => None,
        },
        None => None,
    }
}

/// The declaration of an enum: `enum Name { symbols }`, and behind it
/// `= Symbol;` where the enum has a default. The enum has no namespace yet.
/// Whether the default is one of the symbols is not looked at.
pub open spec fn enum_declaration(s: Seq<char>, pos: int) -> Option<(RawFieldView, int)> {
    let (doc, at) = optional_docstring(s, skip_ws(s, pos));
    match keyword_end(s, at, "enum"@) {
        Some(word_end) => match name(s, skip_ws(s, word_end)) {
            Some((text, behind)) => match expect_padded(s, behind, '{') {
                Some(inside) => match symbols(s, inside) {
                    Some((listed, close)) => match expect_padded(s, close, '}') {
                        Some(end) => match enum_default(s, end) {
                            Some((symbol, after)) => Some(
                                (
                                    RawFieldView::Enum(
                                        Some(text),
                                        listed,
                                        HasDefault::DefaultValue(symbol),
                                        None,
                                        doc,
                                    ),
                                    after,
                                ),
                            ),
                            None => Some(
                                (
                                    RawFieldView::Enum(
                                        Some(text),
                                        listed,
                                        HasDefault::NoDefault,
                                        None,
                                        doc,
                                    ),
                                    end,
                                ),
                            ),
                        },
                        None => None,
                    },
                    None => None,
                },
                None => None,
            },
            None => None,
        },
        None => None,
    }
}

/// An import: `import idl "path";`. The path is taken as it stands.
pub open spec fn import_declaration(s: Seq<char>, pos: int) -> Option<(RawFieldView, int)> {
    match keyword_end(s, skip_ws(s, pos), "import"@) {
        Some(word_end) => match keyword_end(s, skip_ws(s, word_end), "idl"@) {
            Some(kind_end) => {
                let open = skip_ws(s, kind_end);
                match quoted_end(s, open) {
                    Some(close) => match expect_padded(s, close, ';') {
                        Some(end) => Some(
                            (RawFieldView::Import(s.subrange(open + 1, close - 1)), end),
                        ),
                        None => None,
                    },
                    None => None,
                }
            },
            None => None,
        },
        None => None,
    }
}

/// A declaration of a protocol: an import, a record or an enum; tried in that
/// order.
pub open spec fn declaration(s: Seq<char>, pos: int) -> Option<(RawFieldView, int)> {
    if import_declaration(s, pos) is Some {
        import_declaration(s, pos)
    } else if record_declaration(s, pos) is Some {
        record_declaration(s, pos)
    } else {
        enum_declaration(s, pos)
    }
}

/// The declarations of a protocol from `pos` on, behind those already
/// `found`: as many as match, one after the other.
pub open spec fn declarations(s: Seq<char>, pos: int, found: Seq<RawFieldView>) -> (
    Seq<RawFieldView>,
    int,
)
    decreases s.len() - pos,
{
    match declaration(s, pos) {
        Some((field, end)) => if pos < end <= s.len() {
            declarations(s, end, found.push(field))
        } else {
            (found, pos)
        },
        None => (found, pos),
    }
}

/// The namespace of a protocol: `@namespace("text")` at the very start of the
/// text, with no white space in or before it.
pub open spec fn namespace(s: Seq<char>) -> Option<(Seq<char>, int)> {
    match expect(s, 0, '@') {
        Some(at) => match keyword_end(s, at, "namespace"@) {
            Some(word_end) => match expect(s, word_end, '(') {
                Some(open) => match quoted_end(s, open) {
                    Some(close) => match expect(s, close, ')') {
                        Some(end) => Some((s.subrange(open + 1, close - 1), end)),
                        None => None,
                    },
                    None => None,
                },
                None => None,
            },
            None => None,
        },
        None => None,
    }
}

/// What the grammar looked for at the place where a text stopped matching.
#[derive(Clone, Copy, Debug, PartialEq, Eq)]
pub enum Expected {
    /// The keyword `protocol`
    ProtocolKeyword,
    /// The name of the protocol
    ProtocolName,
    /// The `{` that opens the protocol
    OpeningBrace,
    /// A declaration, or the `}` that closes the protocol
    Declaration,
    /// A field, or the `}` that closes the record
    Field,
    /// The end of the text
    EndOfText,
}

/// The place where a text stopped matching the grammar, and what was looked
/// for there.
pub struct Mismatch {
    pub expected: Expected,
    pub at: int,
}

/// Where a text goes wrong that has, at `stop`, neither a declaration nor the
/// `}` that closes the protocol: where the opening of a record stands at
/// `stop`, behind the last field of that record; else at `stop` itself, behind
/// the white space there.
pub open spec fn declaration_mismatch(s: Seq<char>, stop: int) -> Mismatch {
    match record_opening(s, stop) {
        Some((_, _, inside)) => Mismatch {
            expected: Expected::Field,
            at: skip_ws(s, record_fields(s, inside, Seq::empty()).1),
        },
        None => Mismatch { expected: Expected::Declaration, at: skip_ws(s, stop) },
    }
}

/// A whole text: an optional namespace, `protocol Name {`, declarations, `}`
/// and nothing more. Gives the protocol, or the first place at which the
/// text does not go on as a protocol has to.
pub open spec fn protocol(s: Seq<char>) -> Result<RawFieldView, Mismatch> {
    let (space, start) = match namespace(s) {
        Some((text, end)) => (Some(text), end),
        None => (None, 0),
    };
    let word = skip_ws(s, start);
    match keyword_end(s, word, "protocol"@) {
        None => Err(Mismatch { expected: Expected::ProtocolKeyword, at: word }),
        Some(word_end) => {
            let title = skip_ws(s, word_end);
            match name(s, title) {
                None => Err(Mismatch { expected: Expected::ProtocolName, at: title }),
                Some((text, behind)) => {
                    let brace = skip_ws(s, behind);
                    match expect(s, brace, '{') {
                        None => Err(Mismatch { expected: Expected::OpeningBrace, at: brace }),
                        Some(open) => {
                            let (found, stop) = declarations(
                                s,
                                skip_ws(s, open),
                                Seq::empty(),
                            );
                            let close = skip_ws(s, stop);
                            match expect(s, close, '}') {
                                None => Err(declaration_mismatch(s, stop)),
                                Some(behind_close) => {
                                    let end = skip_ws(s, behind_close);
                                    if end == s.len() {
                                        Ok(RawFieldView::Protocol(Some(text), found, space, None))
                                    } else {
                                        Err(Mismatch { expected: Expected::EndOfText, at: end })
                                    }
                                },
                            }
                        },
                    }
                },
            }
        },
    }
}

/// The text of a decimal digit.
pub open spec fn digit_text(digit: nat) -> Seq<char> {
    if digit == 0 {
        "0"@
    } else if digit == 1 {
        "1"@
    } else if digit == 2 {
        "2"@
    } else if digit == 3 {
        "3"@
    } else if digit == 4 {
        "4"@
    } else if digit == 5 {
        "5"@
    } else if digit == 6 {
        "6"@
    } else if digit == 7 {
        "7"@
    } else if digit == 8 {
        "8"@
    } else {
        "9"@
    }
}

/// The text of a number in decimal digits, without leading zeros.
pub open spec fn decimal_text(n: nat) -> Seq<char>
    decreases n,
{
    if n < 10 {
        digit_text(n)
    } else {
        decimal_text(n / 10) + digit_text(n % 10)
    }
}

/// What the grammar looked for, in words.
pub open spec fn expected_text(expected: Expected) -> Seq<char> {
    match expected {
        Expected::ProtocolKeyword => "expected the keyword 'protocol'"@,
        Expected::ProtocolName => "expected the name of the protocol"@,
        Expected::OpeningBrace => "expected '{'"@,
        Expected::Declaration => "expected an import, a record, an enum or '}'"@,
        Expected::Field => "expected a field or '}'"@,
        Expected::EndOfText => "expected the end of the text"@,
    }
}

/// What stands at `at`, in words: the character in quotes, or the end of the
/// text.
pub open spec fn found_text(s: Seq<char>, at: int) -> Seq<char> {
    if 0 <= at < s.len() {
        "'"@ + s.subrange(at, at + 1) + "'"@
    } else {
        "the end of the text"@
    }
}

/// The description of a mismatch for the reader: what was expected, at which
/// offset in characters, and what was found there.
pub open spec fn mismatch_message(s: Seq<char>, mismatch: Mismatch) -> Seq<char> {
    expected_text(mismatch.expected) + " at offset "@ + decimal_text(mismatch.at as nat)
        + ", found "@ + found_text(s, mismatch.at)
}

} // verus!
