//! Reading a text by the grammar: each function here computes what the rule
//! of the same name in [`crate::grammar`] says.

use crate::ast::{lemma_raw_views, raw_views, Decimal, HasDefault, Literal, RawField};
use crate::grammar;
use crate::grammar::{Expected, Primitive};
use crate::scan::Source;
use vstd::prelude::*;

verus! {

/// The model of something read together with the position behind it.
pub open spec fn located<T: DeepView>(r: Option<(T, usize)>) -> Option<(T::V, int)> {
    match r {
        Some((value, end)) => Some((value.deep_view(), end as int)),
        None => None,
    }
}

/// The model of a position, if there is one.
pub open spec fn position(r: Option<usize>) -> Option<int> {
    match r {
        Some(end) => Some(end as int),
        None => None,
    }
}

/// Whether what was read ends inside the text and behind `pos`.
pub open spec fn advances<T>(r: Option<(T, usize)>, pos: usize, len: nat) -> bool {
    match r {
        Some((_, end)) => pos < end <= len,
        None => true,
    }
}

impl Primitive {
    /// The keyword of the type.
    pub fn word(self) -> (res: &'static str)
        ensures
            res@ == self.keyword(),
    {
        match self {
            Primitive::Int => "int",
            Primitive::Long => "long",
            Primitive::Float => "float",
            Primitive::Double => "double",
            Primitive::Boolean => "boolean",
            Primitive::String => "string",
        }
    }

    /// The type alone: no name, no default, no docstring.
    pub fn make_bare(self) -> (res: RawField)
        ensures
            res.deep_view() == self.bare(),
    {
        match self {
            Primitive::Int => RawField::Int(None, HasDefault::NoDefault, None),
            Primitive::Long => RawField::Long(None, HasDefault::NoDefault, None),
            Primitive::Float => RawField::Float(None, HasDefault::NoDefault, None),
            Primitive::Double => RawField::Double(None, HasDefault::NoDefault, None),
            Primitive::Boolean => RawField::Boolean(None, HasDefault::NoDefault, None),
            Primitive::String => RawField::String(None, HasDefault::NoDefault, None),
        }
    }

    /// A field of the type, where the default is nothing or a value of the
    /// type.
    pub fn make_field(
        self,
        name: Option<String>,
        default: HasDefault<Literal>,
        doc: Option<String>,
    ) -> (res: Option<RawField>)
        ensures
            res.deep_view() == self.field(name.deep_view(), default.deep_view(), doc.deep_view()),
    {
        match (self, default) {
            (Primitive::Int, HasDefault::NoDefault) => Some(
                RawField::Int(name, HasDefault::NoDefault, doc),
            ),
            (Primitive::Int, HasDefault::DefaultValue(Literal::Int(v))) => Some(
                RawField::Int(name, HasDefault::DefaultValue(v), doc),
            ),
            (Primitive::Long, HasDefault::NoDefault) => Some(
                RawField::Long(name, HasDefault::NoDefault, doc),
            ),
            (Primitive::Long, HasDefault::DefaultValue(Literal::Long(v))) => Some(
                RawField::Long(name, HasDefault::DefaultValue(v), doc),
            ),
            (Primitive::Float, HasDefault::NoDefault) => Some(
                RawField::Float(name, HasDefault::NoDefault, doc),
            ),
            (Primitive::Float, HasDefault::DefaultValue(Literal::Float(v))) => Some(
                RawField::Float(name, HasDefault::DefaultValue(v), doc),
            ),
            (Primitive::Double, HasDefault::NoDefault) => Some(
                RawField::Double(name, HasDefault::NoDefault, doc),
            ),
            (Primitive::Double, HasDefault::DefaultValue(Literal::Double(v))) => Some(
                RawField::Double(name, HasDefault::DefaultValue(v), doc),
            ),
            (Primitive::Boolean, HasDefault::NoDefault) => Some(
                RawField::Boolean(name, HasDefault::NoDefault, doc),
            ),
            (Primitive::Boolean, HasDefault::DefaultValue(Literal::Boolean(v))) => Some(
                RawField::Boolean(name, HasDefault::DefaultValue(v), doc),
            ),
            (Primitive::String, HasDefault::NoDefault) => Some(
                RawField::String(name, HasDefault::NoDefault, doc),
            ),
            (Primitive::String, HasDefault::DefaultValue(Literal::String(v))) => Some(
                RawField::String(name, HasDefault::DefaultValue(v), doc),
            ),
            _ => None,
        }
    }

    /// The union of the type and null, with name, default and docstring.
    pub fn make_nullable(self, name: String, default: HasDefault<Literal>, doc: Option<String>) -> (res:
        RawField)
        ensures
            res.deep_view() == self.nullable(name@, default.deep_view(), doc.deep_view()),
    {
        let mut types: Vec<RawField> = Vec::new();
        types.push(self.make_bare());
        types.push(RawField::Null);
        proof {
            lemma_raw_views(types@);
            assert(raw_views(types@) =~= seq![self.bare(), crate::ast::RawFieldView::Null]);
        }
        RawField::Union(Some(name), types, default, doc)
    }
}

/// What a literal behind `=` says of the default.
pub fn make_default(literal: Literal) -> (res: HasDefault<Literal>)
    ensures
        res.deep_view() == grammar::default_of(literal.deep_view()),
{
    match literal {
        Literal::Null => HasDefault::DefaultNull,
        _ => HasDefault::DefaultValue(literal),
    }
}

/// The character `c` at `pos`.
pub fn read_char(src: &Source, pos: usize, c: char) -> (res: Option<usize>)
    requires
        pos <= src@.len(),
    ensures
        position(res) == grammar::expect(src@, pos as int, c),
        res matches Some(end) ==> end == pos + 1 && end <= src@.len(),
{
    if src.has(pos, c) {
        Some(pos + 1)
    } else {
        None
    }
}

/// White space, the character `c`, white space.
pub fn read_padded_char(src: &Source, pos: usize, c: char) -> (res: Option<usize>)
    requires
        pos <= src@.len(),
    ensures
        position(res) == grammar::expect_padded(src@, pos as int, c),
        res matches Some(end) ==> pos < end <= src@.len(),
{
    match read_char(src, src.skip(pos), c) {
        Some(end) => Some(src.skip(end)),
        None => None,
    }
}

/// An identifier at `pos`.
pub fn read_name(src: &Source, pos: usize) -> (res: Option<(String, usize)>)
    requires
        pos <= src@.len(),
    ensures
        located(res) == grammar::name(src@, pos as int),
        advances(res, pos, src@.len()),
{
    match src.ident(pos) {
        Some(end) => Some((src.slice(pos, end), end)),
        None => None,
    }
}

/// White space, an identifier, white space.
pub fn read_padded_name(src: &Source, pos: usize) -> (res: Option<(String, usize)>)
    requires
        pos <= src@.len(),
    ensures
        located(res) == grammar::padded_name(src@, pos as int),
        advances(res, pos, src@.len()),
{
    match read_name(src, src.skip(pos)) {
        Some((text, end)) => Some((text, src.skip(end))),
        None => None,
    }
}

/// A docstring with the white space around it.
pub fn read_docstring(src: &Source, pos: usize) -> (res: Option<(String, usize)>)
    requires
        pos <= src@.len(),
    ensures
        located(res) == grammar::docstring(src@, pos as int),
        advances(res, pos, src@.len()),
{
    let open = src.skip(pos);
    if src.has(open, '/') && src.has(open + 1, '*') && src.has(open + 2, '*') {
        match src.find_comment_close(open + 3) {
            Some(close) => Some((src.trimmed_slice(open + 3, close), src.skip(close + 2))),
            None => None,
        }
    } else {
        None
    }
}

/// A docstring, or nothing.
pub fn read_optional_docstring(src: &Source, pos: usize) -> (res: (Option<String>, usize))
    requires
        pos <= src@.len(),
    ensures
        (res.0.deep_view(), res.1 as int) == grammar::optional_docstring(src@, pos as int),
        pos <= res.1 <= src@.len(),
{
    match read_docstring(src, pos) {
        Some((text, end)) => (Some(text), end),
        None => (None, pos),
    }
}

/// The keyword `null`.
pub fn read_null(src: &Source, pos: usize) -> (res: Option<(Literal, usize)>)
    requires
        pos <= src@.len(),
    ensures
        located(res) == grammar::null_literal(src@, pos as int),
        advances(res, pos, src@.len()),
{
    match src.keyword(pos, "null") {
        Some(end) => Some((Literal::Null, end)),
        None => None,
    }
}

/// The value that may stand behind `=` on a field of the type `kind`.
pub fn read_primitive_literal(src: &Source, pos: usize, kind: Primitive) -> (res: Option<
    (Literal, usize),
>)
    requires
        pos <= src@.len(),
    ensures
        located(res) == grammar::primitive_literal(src@, pos as int, kind),
        advances(res, pos, src@.len()),
{
    match kind {
        Primitive::Int => match src.digits(pos) {
            Some(end) => match src.number(pos, end, 0x7fff_ffff) {
                Some(value) => Some((Literal::Int(value as i32), end)),
                None => None,
            },
            None => read_null(src, pos),
        },
        Primitive::Long => match src.digits(pos) {
            Some(end) => match src.number(pos, end, 0x7fff_ffff_ffff_ffff) {
                Some(value) => Some((Literal::Long(value as i64), end)),
                None => None,
            },
            None => read_null(src, pos),
        },
        Primitive::Float => match src.decimal(pos) {
            Some(end) => Some((Literal::Float(Decimal::from_source(src, pos, end)), end)),
            None => read_null(src, pos),
        },
        Primitive::Double => match src.decimal(pos) {
            Some(end) => Some((Literal::Double(Decimal::from_source(src, pos, end)), end)),
            None => read_null(src, pos),
        },
        Primitive::Boolean => match src.keyword(pos, "true") {
            Some(end) => Some((Literal::Boolean(true), end)),
            None => match src.keyword(pos, "false") {
                Some(end) => Some((Literal::Boolean(false), end)),
                None => read_null(src, pos),
            },
        },
        Primitive::String => match src.quoted(pos) {
            Some(end) => Some((Literal::String(src.slice(pos + 1, end - 1)), end)),
            None => read_null(src, pos),
        },
    }
}

/// The start of a primitive field: keyword, `?` for the nullable form, name.
pub fn read_primitive_head(src: &Source, pos: usize, kind: Primitive) -> (res: Option<
    (bool, String, usize),
>)
    requires
        pos <= src@.len(),
    ensures
        match res {
            Some((nullable, text, end)) => grammar::primitive_head(src@, pos as int, kind) == Some(
                (nullable, text@, end as int),
            ) && pos < end <= src@.len(),
            None => grammar::primitive_head(src@, pos as int, kind) is None,
        },
{
    match src.keyword(src.skip(pos), kind.word()) {
        Some(end) => match read_char(src, end, '?') {
            Some(marked) => match read_padded_name(src, marked) {
                Some((text, behind)) => Some((true, text, behind)),
                None => None,
            },
            None => match read_padded_name(src, end) {
                Some((text, behind)) => Some((false, text, behind)),
                None => None,
            },
        },
        None => None,
    }
}

/// The end of a primitive field: `;` alone, or `=`, a literal and `;`.
pub fn read_primitive_tail(src: &Source, pos: usize, kind: Primitive) -> (res: Option<
    (HasDefault<Literal>, usize),
>)
    requires
        pos <= src@.len(),
    ensures
        located(res) == grammar::primitive_tail(src@, pos as int, kind),
        advances(res, pos, src@.len()),
{
    match read_char(src, pos, ';') {
        Some(end) => Some((HasDefault::NoDefault, end)),
        None => match read_padded_char(src, pos, '=') {
            Some(at) => match read_primitive_literal(src, at, kind) {
                Some((literal, behind)) => match read_padded_char(src, behind, ';') {
                    Some(end) => Some((make_default(literal), end)),
                    None => None,
                },
                None => None,
            },
            None => None,
        },
    }
}

/// A field of the primitive type `kind`, behind its docstring.
pub fn read_primitive_field_of(
    src: &Source,
    pos: usize,
    doc: &Option<String>,
    kind: Primitive,
) -> (res: Option<(RawField, usize)>)
    requires
        pos <= src@.len(),
    ensures
        located(res) == grammar::primitive_field_of(src@, pos as int, doc.deep_view(), kind),
        advances(res, pos, src@.len()),
{
    match read_primitive_head(src, pos, kind) {
        Some((nullable, text, at)) => match read_primitive_tail(src, at, kind) {
            Some((default, end)) => if nullable {
                Some((kind.make_nullable(text, default, doc.clone()), end))
            } else {
                match kind.make_field(Some(text), default, doc.clone()) {
                    Some(field) => Some((field, end)),
                    None => None,
                }
            },
            None => None,
        },
        None => None,
    }
}

/// A primitive field with its optional docstring.
pub fn read_primitive_field(src: &Source, pos: usize) -> (res: Option<(RawField, usize)>)
    requires
        pos <= src@.len(),
    ensures
        located(res) == grammar::primitive_field(src@, pos as int),
        advances(res, pos, src@.len()),
{
    let (doc, at) = read_optional_docstring(src, pos);
    let found = read_primitive_field_of(src, at, &doc, Primitive::Int);
    if found.is_some() {
        return found;
    }
    let found = read_primitive_field_of(src, at, &doc, Primitive::Long);
    if found.is_some() {
        return found;
    }
    let found = read_primitive_field_of(src, at, &doc, Primitive::Float);
    if found.is_some() {
        return found;
    }
    let found = read_primitive_field_of(src, at, &doc, Primitive::Double);
    if found.is_some() {
        return found;
    }
    let found = read_primitive_field_of(src, at, &doc, Primitive::Boolean);
    if found.is_some() {
        return found;
    }
    read_primitive_field_of(src, at, &doc, Primitive::String)
}

/// A type without a name, with the white space around it.
pub fn read_unnamed(src: &Source, pos: usize) -> (res: Option<(RawField, usize)>)
    requires
        pos <= src@.len(),
    ensures
        located(res) == grammar::unnamed(src@, pos as int),
        advances(res, pos, src@.len()),
{
    let start = src.skip(pos);
    match src.ident(start) {
        Some(end) => {
            let field = if src.matches_word(start, end, Primitive::Int.word()) {
                Primitive::Int.make_bare()
            } else if src.matches_word(start, end, Primitive::Long.word()) {
                Primitive::Long.make_bare()
            } else if src.matches_word(start, end, Primitive::Float.word()) {
                Primitive::Float.make_bare()
            } else if src.matches_word(start, end, Primitive::Double.word()) {
                Primitive::Double.make_bare()
            } else if src.matches_word(start, end, Primitive::Boolean.word()) {
                Primitive::Boolean.make_bare()
            } else if src.matches_word(start, end, Primitive::String.word()) {
                Primitive::String.make_bare()
            } else if src.matches_word(start, end, "null") {
                RawField::Null
            } else {
                RawField::Unresolved(None, src.slice(start, end), None)
            };
            Some((field, src.skip(end)))
        },
        None => None,
    }
}

/// An array field: `array<type> name;` behind its optional docstring.
pub fn read_array_field(src: &Source, pos: usize) -> (res: Option<(RawField, usize)>)
    requires
        pos <= src@.len(),
    ensures
        located(res) == grammar::array_field(src@, pos as int),
        advances(res, pos, src@.len()),
{
    let (doc, at) = read_optional_docstring(src, pos);
    let word_end = src.keyword(at, "array")?;
    let inside = read_char(src, word_end, '<')?;
    let (element, close) = read_unnamed(src, inside)?;
    let behind = read_char(src, close, '>')?;
    let (text, semi) = read_padded_name(src, behind)?;
    let end = read_char(src, semi, ';')?;
    Some((RawField::Array(Some(text), Box::new(element), HasDefault::NoDefault, doc), end))
}

/// A reference field: `Type name;`.
pub fn read_reference_field(src: &Source, pos: usize) -> (res: Option<(RawField, usize)>)
    requires
        pos <= src@.len(),
    ensures
        located(res) == grammar::reference_field(src@, pos as int),
        advances(res, pos, src@.len()),
{
    let (doc, at) = read_optional_docstring(src, src.skip(pos));
    let (target, behind) = read_name(src, at)?;
    let (text, semi) = read_padded_name(src, behind)?;
    let end = read_char(src, semi, ';')?;
    Some((RawField::Unresolved(Some(text), target, doc), end))
}

/// An optional reference field: `Type? name;`.
pub fn read_optional_reference_field(src: &Source, pos: usize) -> (res: Option<(RawField, usize)>)
    requires
        pos <= src@.len(),
    ensures
        located(res) == grammar::optional_reference_field(src@, pos as int),
        advances(res, pos, src@.len()),
{
    let (doc, at) = read_optional_docstring(src, src.skip(pos));
    let (target, behind) = read_name(src, at)?;
    let marked = read_char(src, behind, '?')?;
    let (text, semi) = read_padded_name(src, marked)?;
    let end = read_char(src, semi, ';')?;
    let mut types: Vec<RawField> = Vec::new();
    types.push(RawField::Unresolved(None, target, None));
    types.push(RawField::Null);
    proof {
        lemma_raw_views(types@);
        assert(raw_views(types@) =~= seq![
            crate::ast::RawFieldView::Unresolved(None, target@, None),
            crate::ast::RawFieldView::Null,
        ]);
    }
    Some((RawField::Union(Some(text), types, HasDefault::NoDefault, doc), end))
}

/// The members of a union: types without names, with commas between them.
pub fn read_members(src: &Source, pos: usize) -> (res: (Vec<RawField>, usize))
    requires
        pos <= src@.len(),
    ensures
        (raw_views(res.0@), res.1 as int) == grammar::members(src@, pos as int),
        pos <= res.1 <= src@.len(),
{
    let mut found: Vec<RawField> = Vec::new();
    let mut at: usize = pos;
    match read_unnamed(src, pos) {
        Some((member, end)) => {
            found.push(member);
            at = end;
            proof {
                lemma_raw_views(found@);
                assert(raw_views(found@) =~= seq![member.deep_view()]);
            }
        },
        None => {
            proof {
                lemma_raw_views(found@);
                assert(raw_views(found@) =~= Seq::<crate::ast::RawFieldView>::empty());
            }
            return (found, pos);
        },
    }
    loop
        invariant
            pos <= at <= src@.len(),
            grammar::members(src@, pos as int) == grammar::more_members(
                src@,
                at as int,
                raw_views(found@),
            ),
        decreases src@.len() - at,
    {
        match read_padded_char(src, at, ',') {
            Some(behind) => match read_unnamed(src, behind) {
                Some((member, end)) => {
                    proof {
                        lemma_raw_views(found@);
                        lemma_raw_views(found@.push(member));
                        assert(raw_views(found@.push(member)) =~= raw_views(found@).push(
                            member.deep_view(),
                        ));
                    }
                    found.push(member);
                    at = end;
                },
                None => {
                    return (found, at);
                },
            },
            None => {
                return (found, at);
            },
        }
    }
}

/// The literal that may stand behind `=` on a union.
pub fn read_union_literal(src: &Source, pos: usize) -> (res: Option<(Literal, usize)>)
    requires
        pos <= src@.len(),
    ensures
        located(res) == grammar::union_literal(src@, pos as int),
        advances(res, pos, src@.len()),
{
    if let Some(end) = src.keyword(pos, "false") {
        return Some((Literal::Boolean(false), end));
    }
    if let Some(end) = src.keyword(pos, "true") {
        return Some((Literal::Boolean(true), end));
    }
    let null = read_null(src, pos);
    if null.is_some() {
        return null;
    }
    if let Some(end) = src.decimal(pos) {
        return Some((Literal::Double(Decimal::from_source(src, pos, end)), end));
    }
    if let Some(end) = src.digits(pos) {
        return match src.number(pos, end, 0x7fff_ffff) {
            Some(value) => Some((Literal::Int(value as i32), end)),
            None => None,
        };
    }
    let inside = read_char(src, pos, '"')?;
    let (text, close) = read_name(src, inside)?;
    let end = read_char(src, close, '"')?;
    Some((Literal::String(text), end))
}

/// The end of a union field: `;`, or `=`, a literal and `;`.
pub fn read_union_tail(src: &Source, pos: usize) -> (res: Option<(HasDefault<Literal>, usize)>)
    requires
        pos <= src@.len(),
    ensures
        located(res) == grammar::union_tail(src@, pos as int),
        advances(res, pos, src@.len()),
{
    match read_padded_char(src, pos, ';') {
        Some(end) => Some((HasDefault::NoDefault, end)),
        None => {
            let at = read_padded_char(src, pos, '=')?;
            let (literal, behind) = read_union_literal(src, at)?;
            let end = read_padded_char(src, behind, ';')?;
            Some((make_default(literal), end))
        },
    }
}

/// A union field behind its optional docstring.
pub fn read_union_field(src: &Source, pos: usize) -> (res: Option<(RawField, usize)>)
    requires
        pos <= src@.len(),
    ensures
        located(res) == grammar::union_field(src@, pos as int),
        advances(res, pos, src@.len()),
{
    let (doc, at) = read_optional_docstring(src, pos);
    let word_end = src.keyword(src.skip(at), "union")?;
    let inside = read_padded_char(src, word_end, '{')?;
    let (types, close) = read_members(src, inside);
    let behind = read_padded_char(src, close, '}')?;
    let (text, tail) = read_padded_name(src, behind)?;
    let (default, end) = read_union_tail(src, tail)?;
    Some((RawField::Union(Some(text), types, default, doc), end))
}

/// A field of a record.
pub fn read_record_field(src: &Source, pos: usize) -> (res: Option<(RawField, usize)>)
    requires
        pos <= src@.len(),
    ensures
        located(res) == grammar::record_field(src@, pos as int),
        advances(res, pos, src@.len()),
{
    let found = read_primitive_field(src, pos);
    if found.is_some() {
        return found;
    }
    let found = read_array_field(src, pos);
    if found.is_some() {
        return found;
    }
    let found = read_reference_field(src, pos);
    if found.is_some() {
        return found;
    }
    let found = read_optional_reference_field(src, pos);
    if found.is_some() {
        return found;
    }
    read_union_field(src, pos)
}

/// The fields of a record: as many as match, one after the other.
pub fn read_record_fields(src: &Source, pos: usize) -> (res: (Vec<RawField>, usize))
    requires
        pos <= src@.len(),
    ensures
        (raw_views(res.0@), res.1 as int) == grammar::record_fields(
            src@,
            pos as int,
            Seq::empty(),
        ),
        pos <= res.1 <= src@.len(),
{
    let mut found: Vec<RawField> = Vec::new();
    let mut at: usize = pos;
    proof {
        lemma_raw_views(found@);
        assert(raw_views(found@) =~= Seq::<crate::ast::RawFieldView>::empty());
    }
    loop
        invariant
            pos <= at <= src@.len(),
            grammar::record_fields(src@, pos as int, Seq::empty()) == grammar::record_fields(
                src@,
                at as int,
                raw_views(found@),
            ),
        decreases src@.len() - at,
    {
        match read_record_field(src, at) {
            Some((field, end)) => {
                proof {
                    lemma_raw_views(found@);
                    lemma_raw_views(found@.push(field));
                    assert(raw_views(found@.push(field)) =~= raw_views(found@).push(
                        field.deep_view(),
                    ));
                }
                found.push(field);
                at = end;
            },
            None => {
                return (found, at);
            },
        }
    }
}

/// The opening of a record: `record Name {`.
pub fn read_record_opening(src: &Source, pos: usize) -> (res: Option<
    (Option<String>, String, usize),
>)
    requires
        pos <= src@.len(),
    ensures
        match res {
            Some((doc, text, inside)) => grammar::record_opening(src@, pos as int) == Some(
                (doc.deep_view(), text@, inside as int),
            ) && pos < inside <= src@.len(),
            None => grammar::record_opening(src@, pos as int) is None,
        },
{
    let (doc, at) = read_optional_docstring(src, src.skip(pos));
    let word_end = src.keyword(at, "record")?;
    let (text, behind) = read_name(src, src.skip(word_end))?;
    let inside = read_padded_char(src, behind, '{')?;
    Some((doc, text, inside))
}

/// The declaration of a record.
pub fn read_record_declaration(src: &Source, pos: usize) -> (res: Option<(RawField, usize)>)
    requires
        pos <= src@.len(),
    ensures
        located(res) == grammar::record_declaration(src@, pos as int),
        advances(res, pos, src@.len()),
{
    let (doc, text, inside) = read_record_opening(src, pos)?;
    let (fields, close) = read_record_fields(src, inside);
    let end = read_padded_char(src, close, '}')?;
    Some((RawField::Record(Some(text), fields, None, doc), end))
}

/// Where a text goes wrong that has, at `stop`, neither a declaration nor the
/// `}` that closes the protocol.
pub fn find_declaration_mismatch(src: &Source, stop: usize) -> (res: (Expected, usize))
    requires
        stop <= src@.len(),
    ensures
        (grammar::Mismatch { expected: res.0, at: res.1 as int }) == grammar::declaration_mismatch(
            src@,
            stop as int,
        ),
        res.1 <= src@.len(),
{
    match read_record_opening(src, stop) {
        Some((_, _, inside)) => {
            let (_, close) = read_record_fields(src, inside);
            (Expected::Field, src.skip(close))
        },
        None => (Expected::Declaration, src.skip(stop)),
    }
}

/// The symbols of an enum: at least one, with commas between them.
pub fn read_symbols(src: &Source, pos: usize) -> (res: Option<(Vec<String>, usize)>)
    requires
        pos <= src@.len(),
    ensures
        located(res) == grammar::symbols(src@, pos as int),
        advances(res, pos, src@.len()),
{
    let mut found: Vec<String> = Vec::new();
    let mut at: usize = pos;
    assert(found.deep_view() =~= Seq::<Seq<char>>::empty());
    loop
        invariant
            pos <= at <= src@.len(),
            grammar::leading_symbols(src@, pos as int, Seq::empty()) == grammar::leading_symbols(
                src@,
                at as int,
                found.deep_view(),
            ),
        decreases src@.len() - at,
    {
        match read_padded_name(src, at) {
            Some((symbol, comma)) => match read_char(src, comma, ',') {
                Some(end) => {
                    let ghost before = found.deep_view();
                    let ghost text = symbol@;
                    found.push(symbol);
                    assert(found.deep_view() =~= before.push(text));
                    at = end;
                },
                None => {
                    let ghost before = found.deep_view();
                    let ghost text = symbol@;
                    found.push(symbol);
                    assert(found.deep_view() =~= before.push(text));
                    return Some((found, comma));
                },
            },
            None => {
                return None;
            },
        }
    }
}

/// The default of an enum: `= Symbol;`.
pub fn read_enum_default(src: &Source, pos: usize) -> (res: Option<(String, usize)>)
    requires
        pos <= src@.len(),
    ensures
        located(res) == grammar::enum_default(src@, pos as int),
        advances(res, pos, src@.len()),
{
    let at = read_padded_char(src, pos, '=')?;
    let (symbol, semi) = read_padded_name(src, at)?;
    let end = read_padded_char(src, semi, ';')?;
    Some((symbol, end))
}

/// The declaration of an enum.
pub fn read_enum_declaration(src: &Source, pos: usize) -> (res: Option<(RawField, usize)>)
    requires
        pos <= src@.len(),
    ensures
        located(res) == grammar::enum_declaration(src@, pos as int),
        advances(res, pos, src@.len()),
{
    let (doc, at) = read_optional_docstring(src, src.skip(pos));
    let word_end = src.keyword(at, "enum")?;
    let (text, behind) = read_name(src, src.skip(word_end))?;
    let inside = read_padded_char(src, behind, '{')?;
    let (listed, close) = read_symbols(src, inside)?;
    let end = read_padded_char(src, close, '}')?;
    match read_enum_default(src, end) {
        Some((symbol, after)) => Some(
            (RawField::Enum(Some(text), listed, HasDefault::DefaultValue(symbol), None, doc), after),
        ),
        None => Some((RawField::Enum(Some(text), listed, HasDefault::NoDefault, None, doc), end)),
    }
}

/// An import: `import idl "path";`.
pub fn read_import_declaration(src: &Source, pos: usize) -> (res: Option<(RawField, usize)>)
    requires
        pos <= src@.len(),
    ensures
        located(res) == grammar::import_declaration(src@, pos as int),
        advances(res, pos, src@.len()),
{
    let word_end = src.keyword(src.skip(pos), "import")?;
    let kind_end = src.keyword(src.skip(word_end), "idl")?;
    let open = src.skip(kind_end);
    let close = src.quoted(open)?;
    let end = read_padded_char(src, close, ';')?;
    Some((RawField::Import(src.slice(open + 1, close - 1)), end))
}

/// A declaration of a protocol: an import, a record or an enum.
pub fn read_declaration(src: &Source, pos: usize) -> (res: Option<(RawField, usize)>)
    requires
        pos <= src@.len(),
    ensures
        located(res) == grammar::declaration(src@, pos as int),
        advances(res, pos, src@.len()),
{
    let found = read_import_declaration(src, pos);
    if found.is_some() {
        return found;
    }
    let found = read_record_declaration(src, pos);
    if found.is_some() {
        return found;
    }
    read_enum_declaration(src, pos)
}

/// The declarations of a protocol: as many as match, one after the other.
pub fn read_declarations(src: &Source, pos: usize) -> (res: (Vec<RawField>, usize))
    requires
        pos <= src@.len(),
    ensures
        (raw_views(res.0@), res.1 as int) == grammar::declarations(
            src@,
            pos as int,
            Seq::empty(),
        ),
        pos <= res.1 <= src@.len(),
{
    let mut found: Vec<RawField> = Vec::new();
    let mut at: usize = pos;
    proof {
        lemma_raw_views(found@);
        assert(raw_views(found@) =~= Seq::<crate::ast::RawFieldView>::empty());
    }
    loop
        invariant
            pos <= at <= src@.len(),
            grammar::declarations(src@, pos as int, Seq::empty()) == grammar::declarations(
                src@,
                at as int,
                raw_views(found@),
            ),
        decreases src@.len() - at,
    {
        match read_declaration(src, at) {
            Some((field, end)) => {
                proof {
                    lemma_raw_views(found@);
                    lemma_raw_views(found@.push(field));
                    assert(raw_views(found@.push(field)) =~= raw_views(found@).push(
                        field.deep_view(),
                    ));
                }
                found.push(field);
                at = end;
            },
            None => {
                return (found, at);
            },
        }
    }
}

/// The namespace of a protocol: `@namespace("text")` at the very start.
pub fn read_namespace(src: &Source) -> (res: Option<(String, usize)>)
    ensures
        located(res) == grammar::namespace(src@),
        res matches Some((_, end)) ==> end <= src@.len(),
{
    let at = read_char(src, 0, '@')?;
    let word_end = src.keyword(at, "namespace")?;
    let open = read_char(src, word_end, '(')?;
    let close = src.quoted(open)?;
    let end = read_char(src, close, ')')?;
    Some((src.slice(open + 1, close - 1), end))
}

/// The model of what reading a whole text gives.
pub open spec fn protocol_view(res: Result<RawField, (Expected, usize)>) -> Result<
    crate::ast::RawFieldView,
    grammar::Mismatch,
> {
    match res {
        Ok(tree) => Ok(tree.deep_view()),
        Err((expected, at)) => Err(grammar::Mismatch { expected, at: at as int }),
    }
}

/// A whole text: the protocol that it declares, or the first place at which
/// it does not go on as a protocol has to.
pub fn read_protocol(src: &Source) -> (res: Result<RawField, (Expected, usize)>)
    ensures
        protocol_view(res) == grammar::protocol(src@),
        res matches Err((_, at)) ==> at <= src@.len(),
{
    let (space, start) = match read_namespace(src) {
        Some((text, end)) => (Some(text), end),
        None => (None, 0),
    };
    let word = src.skip(start);
    let word_end = match src.keyword(word, "protocol") {
        Some(end) => end,
        None => {
            return Err((Expected::ProtocolKeyword, word));
        },
    };
    let title = src.skip(word_end);
    let (text, behind) = match read_name(src, title) {
        Some(found) => found,
        None => {
            return Err((Expected::ProtocolName, title));
        },
    };
    let brace = src.skip(behind);
    let open = match read_char(src, brace, '{') {
        Some(end) => end,
        None => {
            return Err((Expected::OpeningBrace, brace));
        },
    };
    let (found, stop) = read_declarations(src, src.skip(open));
    let close = src.skip(stop);
    let behind_close = match read_char(src, close, '}') {
        Some(end) => end,
        None => {
            return Err(find_declaration_mismatch(src, stop));
        },
    };
    let end = src.skip(behind_close);
    if end == src.len() {
        Ok(RawField::Protocol(Some(text), found, space, None))
    } else {
        Err((Expected::EndOfText, end))
    }
}

} // verus!
