//! What the grammar reads from the written forms of a field: the short form
//! `type? name` and its defaults, the plain form, and arrays.

use crate::ast::{HasDefault, LiteralView, RawFieldView};
use crate::grammar::{
    array_field, default_of, expect, expect_padded, name, null_literal, optional_docstring,
    padded_name, primitive_field_of, primitive_head, primitive_literal, primitive_tail,
    record_field, unnamed, unnamed_type, Primitive,
};
use crate::scan::{
    decimal_end, digits_end, digits_value, ident_end, is_digit, is_ident_part, is_ident_start,
    is_whitespace, keyword_end, lemma_run_end_is, quoted_end, run_end, skip_ws, whole_end,
    CharClass,
};
use vstd::prelude::*;

verus! {

/// True when `word` stands in `s` at `pos`.
pub open spec fn stands_at(s: Seq<char>, pos: int, word: Seq<char>) -> bool {
    0 <= pos && pos + word.len() <= s.len() && s.subrange(pos, pos + word.len()) == word
}

/// True when `word` is an identifier: an ASCII letter or an underscore, and
/// behind it letters, digits and underscores.
pub open spec fn is_identifier(word: Seq<char>) -> bool {
    &&& word.len() > 0
    &&& is_ident_start(word[0])
    &&& forall|i: int| 0 <= i < word.len() ==> is_ident_part(#[trigger] word[i])
}

/// Where a word stands, its characters stand one by one.
pub proof fn lemma_stands_chars(s: Seq<char>, pos: int, word: Seq<char>)
    requires
        stands_at(s, pos, word),
    ensures
        forall|i: int| 0 <= i < word.len() ==> s[pos + i] == #[trigger] word[i],
{
    assert forall|i: int| 0 <= i < word.len() implies s[pos + i] == #[trigger] word[i] by {
        assert(s.subrange(pos, pos + word.len())[i] == s[pos + i]);
    }
}

/// Where two words stand one behind the other, each of them stands.
pub proof fn lemma_stands_split(s: Seq<char>, pos: int, first: Seq<char>, second: Seq<char>)
    requires
        stands_at(s, pos, first + second),
    ensures
        stands_at(s, pos, first),
        stands_at(s, pos + first.len(), second),
{
    lemma_stands_chars(s, pos, first + second);
    assert(s.subrange(pos, pos + first.len()) =~= first) by {
        assert forall|i: int| 0 <= i < first.len() implies s[pos + i] == first[i] by {
            assert((first + second)[i] == first[i]);
        }
    }
    assert(s.subrange(pos + first.len(), pos + first.len() + second.len()) =~= second) by {
        assert forall|i: int| 0 <= i < second.len() implies s[pos + first.len() + i]
            == second[i] by {
            assert((first + second)[first.len() + i] == second[i]);
        }
    }
}

/// An identifier that stands at `pos`, with no letter, digit or underscore
/// behind it, is read as a name from `pos`, whole.
pub proof fn lemma_identifier_is_read(s: Seq<char>, pos: int, word: Seq<char>)
    requires
        stands_at(s, pos, word),
        is_identifier(word),
        pos + word.len() < s.len() ==> !is_ident_part(s[pos + word.len()]),
    ensures
        ident_end(s, pos) == Some(pos + word.len()),
        name(s, pos) == Some((word, pos + word.len())),
        keyword_end(s, pos, word) == Some(pos + word.len()),
        skip_ws(s, pos) == pos,
{
    lemma_stands_chars(s, pos, word);
    assert(s[pos] == word[0]);
    assert forall|i: int| pos + 1 <= i < pos + word.len() implies CharClass::IdentPart.holds(
        #[trigger] s[i],
    ) by {
        assert(s[i] == word[i - pos]);
    }
    lemma_run_end_is(s, pos + 1, pos + word.len(), CharClass::IdentPart);
}

/// A single blank with something else than white space behind it is skipped
/// and nothing more.
pub proof fn lemma_one_blank(s: Seq<char>, pos: int)
    requires
        0 <= pos && pos + 1 < s.len(),
        s[pos] == ' ',
        !is_whitespace(s[pos + 1]),
    ensures
        skip_ws(s, pos) == pos + 1,
{
    assert(run_end(s, pos + 1, CharClass::Whitespace) == pos + 1);
}

/// The keyword of each primitive type is an identifier, and no two of the
/// keywords are the same, nor is any of them `null`.
pub proof fn lemma_keywords(kind: Primitive)
    ensures
        is_identifier(kind.keyword()),
        forall|other: Primitive| other != kind ==> other.keyword() != kind.keyword(),
        kind.keyword() != "null"@,
{
    reveal_strlit("int");
    reveal_strlit("long");
    reveal_strlit("float");
    reveal_strlit("double");
    reveal_strlit("boolean");
    reveal_strlit("string");
    reveal_strlit("null");
    assert("int"@[0] == 'i' && "long"@[0] == 'l' && "float"@[0] == 'f' && "double"@[0] == 'd'
        && "boolean"@[0] == 'b' && "string"@[0] == 's' && "null"@[0] == 'n');
}

/// The start of the short form: `type? name`, with one blank between, is
/// read as the nullable form with that name, and the white space behind the
/// name is skipped.
pub proof fn lemma_nullable_head(s: Seq<char>, pos: int, kind: Primitive, field: Seq<char>)
    requires
        stands_at(s, pos, kind.keyword() + seq!['?', ' '] + field),
        is_identifier(field),
        pos + (kind.keyword() + seq!['?', ' '] + field).len() < s.len() ==> !is_ident_part(
            s[pos + (kind.keyword() + seq!['?', ' '] + field).len()],
        ),
    ensures
        primitive_head(s, pos, kind) == Some(
            (
                true,
                field,
                skip_ws(s, pos + (kind.keyword() + seq!['?', ' '] + field).len()),
            ),
        ),
{
    let word = kind.keyword();
    let mark = seq!['?', ' '];
    lemma_keywords(kind);
    lemma_stands_split(s, pos, word + mark, field);
    lemma_stands_split(s, pos, word, mark);
    lemma_stands_chars(s, pos + word.len(), mark);
    let marked = pos + word.len();
    assert(s[marked] == mark[0]);
    assert(s[marked + 1] == mark[1]);
    lemma_identifier_is_read(s, pos, word);
    let start = marked + 2;
    lemma_stands_chars(s, start, field);
    assert(s[start] == field[0]);
    lemma_one_blank(s, marked + 1);
    lemma_identifier_is_read(s, start, field);
    assert(expect(s, marked, '?') == Some(marked + 1));
    assert(padded_name(s, marked + 1) == Some((field, skip_ws(s, start + field.len()))));
}

/// The start of the plain form: `type name`, with one blank between, is read
/// as the plain form with that name, and the white space behind the name is
/// skipped.
pub proof fn lemma_plain_head(s: Seq<char>, pos: int, kind: Primitive, field: Seq<char>)
    requires
        stands_at(s, pos, kind.keyword() + seq![' '] + field),
        is_identifier(field),
        pos + (kind.keyword() + seq![' '] + field).len() < s.len() ==> !is_ident_part(
            s[pos + (kind.keyword() + seq![' '] + field).len()],
        ),
    ensures
        primitive_head(s, pos, kind) == Some(
            (false, field, skip_ws(s, pos + (kind.keyword() + seq![' '] + field).len())),
        ),
{
    let word = kind.keyword();
    let blank = seq![' '];
    lemma_keywords(kind);
    lemma_stands_split(s, pos, word + blank, field);
    lemma_stands_split(s, pos, word, blank);
    lemma_stands_chars(s, pos + word.len(), blank);
    let behind = pos + word.len();
    assert(s[behind] == blank[0]);
    lemma_identifier_is_read(s, pos, word);
    let start = behind + 1;
    lemma_stands_chars(s, start, field);
    assert(s[start] == field[0]);
    lemma_one_blank(s, behind);
    lemma_identifier_is_read(s, start, field);
    assert(expect(s, behind, '?') is None);
    assert(padded_name(s, behind) == Some((field, skip_ws(s, start + field.len()))));
}

/// `type? name;` is the union of the type and null: the union has the name
/// and no default, and the type inside the union has neither name nor
/// default.
pub proof fn lemma_nullable_without_default(
    s: Seq<char>,
    pos: int,
    kind: Primitive,
    field: Seq<char>,
    doc: Option<Seq<char>>,
)
    requires
        stands_at(s, pos, kind.keyword() + seq!['?', ' '] + field + seq![';']),
        is_identifier(field),
    ensures
        primitive_field_of(s, pos, doc, kind) == Some(
            (
                RawFieldView::Union(
                    Some(field),
                    seq![kind.bare(), RawFieldView::Null],
                    HasDefault::NoDefault,
                    doc,
                ),
                pos + (kind.keyword() + seq!['?', ' '] + field + seq![';']).len(),
            ),
        ),
{
    let head = kind.keyword() + seq!['?', ' '] + field;
    lemma_stands_split(s, pos, head, seq![';']);
    lemma_stands_chars(s, pos + head.len(), seq![';']);
    assert(s[pos + head.len()] == seq![';'][0]);
    lemma_nullable_head(s, pos, kind, field);
    assert(skip_ws(s, pos + head.len()) == pos + head.len());
    assert(primitive_tail(s, pos + head.len(), kind) == Some(
        (HasDefault::<LiteralView>::NoDefault, pos + head.len() + 1),
    ));
}

/// `type name;` is a field of the type with the name and no default.
pub proof fn lemma_plain_without_default(
    s: Seq<char>,
    pos: int,
    kind: Primitive,
    field: Seq<char>,
    doc: Option<Seq<char>>,
)
    requires
        stands_at(s, pos, kind.keyword() + seq![' '] + field + seq![';']),
        is_identifier(field),
    ensures
        kind.field(Some(field), HasDefault::NoDefault, doc) is Some,
        primitive_field_of(s, pos, doc, kind) == Some(
            (
                kind.field(Some(field), HasDefault::NoDefault, doc)->Some_0,
                pos + (kind.keyword() + seq![' '] + field + seq![';']).len(),
            ),
        ),
{
    let head = kind.keyword() + seq![' '] + field;
    lemma_stands_split(s, pos, head, seq![';']);
    lemma_stands_chars(s, pos + head.len(), seq![';']);
    assert(s[pos + head.len()] == seq![';'][0]);
    lemma_plain_head(s, pos, kind, field);
    assert(skip_ws(s, pos + head.len()) == pos + head.len());
    assert(primitive_tail(s, pos + head.len(), kind) == Some(
        (HasDefault::<LiteralView>::NoDefault, pos + head.len() + 1),
    ));
}

/// What is read as the default of a field of the type `kind` is a value of
/// that type or null.
pub proof fn lemma_literal_fits(s: Seq<char>, pos: int, kind: Primitive)
    ensures
        primitive_literal(s, pos, kind) matches Some((literal, _)) ==> match kind {
            Primitive::Int => literal is Int || literal is Null,
            Primitive::Long => literal is Long || literal is Null,
            Primitive::Float => literal is Float || literal is Null,
            Primitive::Double => literal is Double || literal is Null,
            Primitive::Boolean => literal is Boolean || literal is Null,
            Primitive::String => literal is String || literal is Null,
        },
{
}

/// A literal begins with something else than white space.
pub proof fn lemma_literal_begins(s: Seq<char>, pos: int, kind: Primitive)
    requires
        primitive_literal(s, pos, kind) is Some,
    ensures
        0 <= pos < s.len(),
        !is_whitespace(s[pos]),
{
}

/// The end of a field from ` = ` on: where a literal of the type stands
/// behind it and `;` directly behind the literal, the default is that
/// literal, the explicit null for `null`.
pub proof fn lemma_default_is_read(
    s: Seq<char>,
    pos: int,
    kind: Primitive,
    literal: LiteralView,
    behind: int,
)
    requires
        stands_at(s, pos, seq![' ', '=', ' ']),
        primitive_literal(s, pos + 3, kind) == Some((literal, behind)),
        expect(s, behind, ';') is Some,
    ensures
        skip_ws(s, pos) == pos + 1,
        primitive_tail(s, pos + 1, kind) == Some((default_of(literal), skip_ws(s, behind + 1))),
{
    lemma_stands_chars(s, pos, seq![' ', '=', ' ']);
    assert(s[pos] == seq![' ', '=', ' '][0]);
    assert(s[pos + 1] == seq![' ', '=', ' '][1]);
    assert(s[pos + 2] == seq![' ', '=', ' '][2]);
    assert(run_end(s, pos + 1, CharClass::Whitespace) == pos + 1);
    lemma_literal_begins(s, pos + 3, kind);
    assert(run_end(s, pos + 3, CharClass::Whitespace) == pos + 3);
    assert(skip_ws(s, pos + 2) == pos + 3);
    assert(skip_ws(s, pos + 1) == pos + 1);
    assert(expect_padded(s, pos + 1, '=') == Some(pos + 3));
    assert(skip_ws(s, behind) == behind);
}

/// `type? name = literal;` is the union of the type and null, and the
/// default stands on the union: the explicit null for `null`, else the value.
/// The type inside the union has no default.
pub proof fn lemma_nullable_with_default(
    s: Seq<char>,
    pos: int,
    kind: Primitive,
    field: Seq<char>,
    doc: Option<Seq<char>>,
    literal: LiteralView,
    behind: int,
)
    requires
        stands_at(s, pos, kind.keyword() + seq!['?', ' '] + field + seq![' ', '=', ' ']),
        is_identifier(field),
        primitive_literal(
            s,
            pos + (kind.keyword() + seq!['?', ' '] + field + seq![' ', '=', ' ']).len(),
            kind,
        ) == Some((literal, behind)),
        expect(s, behind, ';') is Some,
    ensures
        primitive_field_of(s, pos, doc, kind) == Some(
            (
                RawFieldView::Union(
                    Some(field),
                    seq![kind.bare(), RawFieldView::Null],
                    default_of(literal),
                    doc,
                ),
                skip_ws(s, behind + 1),
            ),
        ),
        literal is Null ==> default_of(literal) is DefaultNull,
        !(literal is Null) ==> default_of(literal) == HasDefault::DefaultValue(literal),
{
    let head = kind.keyword() + seq!['?', ' '] + field;
    lemma_stands_split(s, pos, head, seq![' ', '=', ' ']);
    lemma_stands_chars(s, pos + head.len(), seq![' ', '=', ' ']);
    assert(s[pos + head.len()] == seq![' ', '=', ' '][0]);
    lemma_nullable_head(s, pos, kind, field);
    lemma_default_is_read(s, pos + head.len(), kind, literal, behind);
}

/// `type name = value;` is a field of the type whose default is the value.
pub proof fn lemma_plain_with_default(
    s: Seq<char>,
    pos: int,
    kind: Primitive,
    field: Seq<char>,
    doc: Option<Seq<char>>,
    literal: LiteralView,
    behind: int,
)
    requires
        stands_at(s, pos, kind.keyword() + seq![' '] + field + seq![' ', '=', ' ']),
        is_identifier(field),
        primitive_literal(
            s,
            pos + (kind.keyword() + seq![' '] + field + seq![' ', '=', ' ']).len(),
            kind,
        ) == Some((literal, behind)),
        !(literal is Null),
        expect(s, behind, ';') is Some,
    ensures
        kind.field(Some(field), HasDefault::DefaultValue(literal), doc) is Some,
        primitive_field_of(s, pos, doc, kind) == Some(
            (
                kind.field(Some(field), HasDefault::DefaultValue(literal), doc)->Some_0,
                skip_ws(s, behind + 1),
            ),
        ),
{
    let head = kind.keyword() + seq![' '] + field;
    lemma_stands_split(s, pos, head, seq![' ', '=', ' ']);
    lemma_stands_chars(s, pos + head.len(), seq![' ', '=', ' ']);
    assert(s[pos + head.len()] == seq![' ', '=', ' '][0]);
    lemma_plain_head(s, pos, kind, field);
    lemma_default_is_read(s, pos + head.len(), kind, literal, behind);
    lemma_literal_fits(s, pos + head.len() + 3, kind);
}

/// `type name = null;` is no field: a field that cannot be null takes no
/// null as its default.
pub proof fn lemma_plain_with_null_is_refused(
    s: Seq<char>,
    pos: int,
    kind: Primitive,
    field: Seq<char>,
    doc: Option<Seq<char>>,
    behind: int,
)
    requires
        stands_at(s, pos, kind.keyword() + seq![' '] + field + seq![' ', '=', ' ']),
        is_identifier(field),
        primitive_literal(
            s,
            pos + (kind.keyword() + seq![' '] + field + seq![' ', '=', ' ']).len(),
            kind,
        ) == Some((LiteralView::Null, behind)),
    ensures
        primitive_field_of(s, pos, doc, kind) is None,
{
    let head = kind.keyword() + seq![' '] + field;
    lemma_stands_split(s, pos, head, seq![' ', '=', ' ']);
    lemma_stands_chars(s, pos + head.len(), seq![' ', '=', ' ']);
    assert(s[pos + head.len()] == seq![' ', '=', ' '][0]);
    assert(s[pos + head.len() + 1] == seq![' ', '=', ' '][1]);
    assert(s[pos + head.len() + 2] == seq![' ', '=', ' '][2]);
    lemma_plain_head(s, pos, kind, field);
    let at = pos + head.len();
    assert(run_end(s, at + 1, CharClass::Whitespace) == at + 1);
    lemma_literal_begins(s, at + 3, kind);
    assert(run_end(s, at + 3, CharClass::Whitespace) == at + 3);
    assert(skip_ws(s, at + 2) == at + 3);
    assert(skip_ws(s, at + 1) == at + 1);
    assert(skip_ws(s, at) == at + 1);
    assert(expect_padded(s, at + 1, '=') == Some(at + 3));
}

/// The keyword `null` with nothing of a name behind it is read as the null
/// literal, whatever the type of the field.
pub proof fn lemma_null_is_read(s: Seq<char>, pos: int, kind: Primitive)
    requires
        stands_at(s, pos, "null"@),
        pos + 4 < s.len() ==> !is_ident_part(s[pos + 4]),
    ensures
        primitive_literal(s, pos, kind) == Some((LiteralView::Null, pos + 4)),
{
    reveal_strlit("null");
    reveal_strlit("true");
    reveal_strlit("false");
    lemma_stands_chars(s, pos, "null"@);
    assert(s[pos] == "null"@[0]);
    lemma_identifier_is_read(s, pos, "null"@);
    assert(null_literal(s, pos) == Some((LiteralView::Null, pos + 4)));
    assert(digits_end(s, pos) is None);
    assert(whole_end(s, pos) is None);
    assert(decimal_end(s, pos) is None);
    assert(quoted_end(s, pos) is None);
    assert(keyword_end(s, pos, "true"@) is None);
    assert(keyword_end(s, pos, "false"@) is None);
}

/// `type? name = null;` is the union of the type and null with the explicit
/// null as its default.
pub proof fn lemma_nullable_with_null(
    s: Seq<char>,
    pos: int,
    kind: Primitive,
    field: Seq<char>,
    doc: Option<Seq<char>>,
)
    requires
        stands_at(
            s,
            pos,
            kind.keyword() + seq!['?', ' '] + field + seq![' ', '=', ' '] + "null"@ + seq![';'],
        ),
        is_identifier(field),
    ensures
        primitive_field_of(s, pos, doc, kind) == Some(
            (
                RawFieldView::Union(
                    Some(field),
                    seq![kind.bare(), RawFieldView::Null],
                    HasDefault::DefaultNull,
                    doc,
                ),
                skip_ws(
                    s,
                    pos + (kind.keyword() + seq!['?', ' '] + field + seq![' ', '=', ' '] + "null"@
                        + seq![';']).len(),
                ),
            ),
        ),
{
    reveal_strlit("null");
    let front = kind.keyword() + seq!['?', ' '] + field + seq![' ', '=', ' '];
    lemma_stands_split(s, pos, front + "null"@, seq![';']);
    lemma_stands_split(s, pos, front, "null"@);
    let at = pos + front.len();
    lemma_stands_chars(s, at + 4, seq![';']);
    assert(s[at + 4] == seq![';'][0]);
    lemma_null_is_read(s, at, kind);
    lemma_nullable_with_default(s, pos, kind, field, doc, LiteralView::Null, at + 4);
}

/// `array<type> name;` is an array with the name, whose elements are of the
/// type; neither the array nor the type of its elements has a default.
pub proof fn lemma_array_of_primitive(
    s: Seq<char>,
    pos: int,
    kind: Primitive,
    field: Seq<char>,
)
    requires
        stands_at(
            s,
            pos,
            "array"@ + seq!['<'] + kind.keyword() + seq!['>', ' '] + field + seq![';'],
        ),
        is_identifier(field),
    ensures
        array_field(s, pos) == Some(
            (
                RawFieldView::Array(
                    Some(field),
                    Box::new(kind.bare()),
                    HasDefault::NoDefault,
                    None,
                ),
                pos + ("array"@ + seq!['<'] + kind.keyword() + seq!['>', ' '] + field
                    + seq![';']).len(),
            ),
        ),
{
    reveal_strlit("array");
    lemma_keywords(kind);
    let word = kind.keyword();
    let a = "array"@ + seq!['<'];
    let b = a + word;
    let c = b + seq!['>', ' '];
    let d = c + field;
    lemma_stands_split(s, pos, d, seq![';']);
    lemma_stands_split(s, pos, c, field);
    lemma_stands_split(s, pos, b, seq!['>', ' ']);
    lemma_stands_split(s, pos, a, word);
    lemma_stands_split(s, pos, "array"@, seq!['<']);
    lemma_stands_chars(s, pos, "array"@);
    assert(s[pos] == "array"@[0]);
    lemma_stands_chars(s, pos + 5, seq!['<']);
    assert(s[pos + 5] == seq!['<'][0]);
    lemma_stands_chars(s, pos + b.len(), seq!['>', ' ']);
    assert(s[pos + b.len()] == seq!['>', ' '][0]);
    assert(s[pos + b.len() + 1] == seq!['>', ' '][1]);
    lemma_stands_chars(s, pos + d.len(), seq![';']);
    assert(s[pos + d.len()] == seq![';'][0]);
    lemma_stands_chars(s, pos + c.len(), field);
    assert(s[pos + c.len()] == field[0]);
    lemma_identifier_is_read(s, pos, "array"@);
    assert(crate::grammar::docstring(s, pos) is None);
    assert(optional_docstring(s, pos) == (None::<Seq<char>>, pos));
    lemma_identifier_is_read(s, pos + 6, word);
    assert(padded_name(s, pos + 6) == Some((word, pos + b.len())));
    lemma_unnamed_keyword(kind);
    assert(unnamed(s, pos + 6) == Some((kind.bare(), pos + b.len())));
    lemma_one_blank(s, pos + b.len() + 1);
    lemma_identifier_is_read(s, pos + c.len(), field);
    assert(padded_name(s, pos + b.len() + 1) == Some((field, pos + d.len())));
}

/// The keyword of a primitive type, where a type stands without a name, is
/// that type.
pub proof fn lemma_unnamed_keyword(kind: Primitive)
    ensures
        unnamed_type(kind.keyword()) == kind.bare(),
{
    lemma_keywords(Primitive::Int);
    lemma_keywords(Primitive::Long);
    lemma_keywords(Primitive::Float);
    lemma_keywords(Primitive::Double);
    lemma_keywords(Primitive::Boolean);
    lemma_keywords(Primitive::String);
}

/// Where the keyword of a primitive type stands at `pos`, the field that
/// begins there is read by the rule for that type and by no other rule: no
/// docstring is read, no other primitive type matches, and no later
/// alternative is asked.
pub proof fn lemma_keyword_decides(
    s: Seq<char>,
    pos: int,
    kind: Primitive,
    read: (RawFieldView, int),
)
    requires
        exists|rest: Seq<char>| stands_at(s, pos, kind.keyword() + rest),
        primitive_field_of(s, pos, None, kind) == Some(read),
    ensures
        record_field(s, pos) == Some(read),
{
    lemma_keywords(kind);
    let word = kind.keyword();
    let rest = choose|rest: Seq<char>| stands_at(s, pos, kind.keyword() + rest);
    lemma_stands_split(s, pos, word, rest);
    lemma_stands_chars(s, pos, word);
    assert(s[pos] == word[0]);
    assert(is_ident_start(s[pos]));
    assert(skip_ws(s, pos) == pos);
    assert(crate::grammar::docstring(s, pos) is None);
    assert(optional_docstring(s, pos) == (None::<Seq<char>>, pos));
    assert forall|other: Primitive| other != kind implies primitive_field_of(
        s,
        pos,
        None,
        other,
    ) is None by {
        assert(other.keyword() != word);
        assert(keyword_end(s, pos, other.keyword()) is None);
        assert(primitive_head(s, pos, other) is None);
    }
    assert(crate::grammar::primitive_field(s, pos) == Some(read));
}

/// `type? name;` as a field of a record.
pub proof fn lemma_record_field_nullable_without_default(
    s: Seq<char>,
    pos: int,
    kind: Primitive,
    field: Seq<char>,
)
    requires
        stands_at(s, pos, kind.keyword() + seq!['?', ' '] + field + seq![';']),
        is_identifier(field),
    ensures
        record_field(s, pos) == Some(
            (
                RawFieldView::Union(
                    Some(field),
                    seq![kind.bare(), RawFieldView::Null],
                    HasDefault::NoDefault,
                    None,
                ),
                pos + (kind.keyword() + seq!['?', ' '] + field + seq![';']).len(),
            ),
        ),
{
    lemma_nullable_without_default(s, pos, kind, field, None);
    let read = primitive_field_of(s, pos, None, kind)->Some_0;
    let rest = seq!['?', ' '] + field + seq![';'];
    assert(kind.keyword() + rest =~= kind.keyword() + seq!['?', ' '] + field + seq![';']);
    lemma_keyword_decides(s, pos, kind, read);
}

/// `type? name = null;` as a field of a record.
pub proof fn lemma_record_field_nullable_with_null(
    s: Seq<char>,
    pos: int,
    kind: Primitive,
    field: Seq<char>,
)
    requires
        stands_at(
            s,
            pos,
            kind.keyword() + seq!['?', ' '] + field + seq![' ', '=', ' '] + "null"@ + seq![';'],
        ),
        is_identifier(field),
    ensures
        record_field(s, pos) == Some(
            (
                RawFieldView::Union(
                    Some(field),
                    seq![kind.bare(), RawFieldView::Null],
                    HasDefault::DefaultNull,
                    None,
                ),
                skip_ws(
                    s,
                    pos + (kind.keyword() + seq!['?', ' '] + field + seq![' ', '=', ' '] + "null"@
                        + seq![';']).len(),
                ),
            ),
        ),
{
    lemma_nullable_with_null(s, pos, kind, field, None);
    let read = primitive_field_of(s, pos, None, kind)->Some_0;
    let rest = seq!['?', ' '] + field + seq![' ', '=', ' '] + "null"@ + seq![';'];
    assert(kind.keyword() + rest =~= kind.keyword() + seq!['?', ' '] + field + seq![' ', '=', ' ']
        + "null"@ + seq![';']);
    lemma_keyword_decides(s, pos, kind, read);
}

/// `type? name = value;` as a field of a record: the value stands on the
/// union, never on the type inside it.
pub proof fn lemma_record_field_nullable_with_value(
    s: Seq<char>,
    pos: int,
    kind: Primitive,
    field: Seq<char>,
    literal: LiteralView,
    behind: int,
)
    requires
        stands_at(s, pos, kind.keyword() + seq!['?', ' '] + field + seq![' ', '=', ' ']),
        is_identifier(field),
        primitive_literal(
            s,
            pos + (kind.keyword() + seq!['?', ' '] + field + seq![' ', '=', ' ']).len(),
            kind,
        ) == Some((literal, behind)),
        !(literal is Null),
        expect(s, behind, ';') is Some,
    ensures
        record_field(s, pos) == Some(
            (
                RawFieldView::Union(
                    Some(field),
                    seq![kind.bare(), RawFieldView::Null],
                    HasDefault::DefaultValue(literal),
                    None,
                ),
                skip_ws(s, behind + 1),
            ),
        ),
        kind.bare() == kind.field(None, HasDefault::NoDefault, None)->Some_0,
{
    lemma_nullable_with_default(s, pos, kind, field, None, literal, behind);
    let read = primitive_field_of(s, pos, None, kind)->Some_0;
    let rest = seq!['?', ' '] + field + seq![' ', '=', ' '];
    assert(kind.keyword() + rest =~= kind.keyword() + seq!['?', ' '] + field + seq![' ', '=', ' ']);
    lemma_keyword_decides(s, pos, kind, read);
}

/// `type name;` as a field of a record.
pub proof fn lemma_record_field_plain_without_default(
    s: Seq<char>,
    pos: int,
    kind: Primitive,
    field: Seq<char>,
)
    requires
        stands_at(s, pos, kind.keyword() + seq![' '] + field + seq![';']),
        is_identifier(field),
    ensures
        kind.field(Some(field), HasDefault::NoDefault, None) is Some,
        record_field(s, pos) == Some(
            (
                kind.field(Some(field), HasDefault::NoDefault, None)->Some_0,
                pos + (kind.keyword() + seq![' '] + field + seq![';']).len(),
            ),
        ),
{
    lemma_plain_without_default(s, pos, kind, field, None);
    let read = primitive_field_of(s, pos, None, kind)->Some_0;
    let rest = seq![' '] + field + seq![';'];
    assert(kind.keyword() + rest =~= kind.keyword() + seq![' '] + field + seq![';']);
    lemma_keyword_decides(s, pos, kind, read);
}

/// `type name = value;` as a field of a record.
pub proof fn lemma_record_field_plain_with_value(
    s: Seq<char>,
    pos: int,
    kind: Primitive,
    field: Seq<char>,
    literal: LiteralView,
    behind: int,
)
    requires
        stands_at(s, pos, kind.keyword() + seq![' '] + field + seq![' ', '=', ' ']),
        is_identifier(field),
        primitive_literal(
            s,
            pos + (kind.keyword() + seq![' '] + field + seq![' ', '=', ' ']).len(),
            kind,
        ) == Some((literal, behind)),
        !(literal is Null),
        expect(s, behind, ';') is Some,
    ensures
        kind.field(Some(field), HasDefault::DefaultValue(literal), None) is Some,
        record_field(s, pos) == Some(
            (
                kind.field(Some(field), HasDefault::DefaultValue(literal), None)->Some_0,
                skip_ws(s, behind + 1),
            ),
        ),
{
    lemma_plain_with_default(s, pos, kind, field, None, literal, behind);
    let read = primitive_field_of(s, pos, None, kind)->Some_0;
    let rest = seq![' '] + field + seq![' ', '=', ' '];
    assert(kind.keyword() + rest =~= kind.keyword() + seq![' '] + field + seq![' ', '=', ' ']);
    lemma_keyword_decides(s, pos, kind, read);
}

/// `array<type> name;` as a field of a record.
pub proof fn lemma_record_field_array(s: Seq<char>, pos: int, kind: Primitive, field: Seq<char>)
    requires
        stands_at(
            s,
            pos,
            "array"@ + seq!['<'] + kind.keyword() + seq!['>', ' '] + field + seq![';'],
        ),
        is_identifier(field),
    ensures
        record_field(s, pos) == Some(
            (
                RawFieldView::Array(
                    Some(field),
                    Box::new(kind.bare()),
                    HasDefault::NoDefault,
                    None,
                ),
                pos + ("array"@ + seq!['<'] + kind.keyword() + seq!['>', ' '] + field
                    + seq![';']).len(),
            ),
        ),
{
    reveal_strlit("array");
    lemma_array_of_primitive(s, pos, kind, field);
    let word = kind.keyword();
    let a = "array"@ + seq!['<'];
    let b = a + word;
    let c = b + seq!['>', ' '];
    let d = c + field;
    lemma_stands_split(s, pos, d, seq![';']);
    lemma_stands_split(s, pos, c, field);
    lemma_stands_split(s, pos, b, seq!['>', ' ']);
    lemma_stands_split(s, pos, a, word);
    lemma_stands_split(s, pos, "array"@, seq!['<']);
    lemma_stands_chars(s, pos, "array"@);
    assert(s[pos] == "array"@[0]);
    lemma_stands_chars(s, pos + 5, seq!['<']);
    assert(s[pos + 5] == seq!['<'][0]);
    lemma_identifier_is_read(s, pos, "array"@);
    assert(optional_docstring(s, pos) == (None::<Seq<char>>, pos)) by {
        assert(crate::grammar::docstring(s, pos) is None);
    }
    lemma_keywords(Primitive::Int);
    lemma_keywords(Primitive::Long);
    lemma_keywords(Primitive::Float);
    lemma_keywords(Primitive::Double);
    lemma_keywords(Primitive::Boolean);
    lemma_keywords(Primitive::String);
    assert forall|other: Primitive| primitive_head(s, pos, other) is None by {
        reveal_strlit("int");
        reveal_strlit("long");
        reveal_strlit("float");
        reveal_strlit("double");
        reveal_strlit("boolean");
        reveal_strlit("string");
        assert(other.keyword().len() != 5 || other.keyword()[0] != 'a');
        assert(keyword_end(s, pos, other.keyword()) is None);
    }
    assert(crate::grammar::primitive_field(s, pos) is None);
}

/// Digits that stand at `pos` with no digit behind them are read, whole, as
/// the number that they write.
pub proof fn lemma_digits_are_read(s: Seq<char>, pos: int, digits: Seq<char>)
    requires
        stands_at(s, pos, digits),
        digits.len() > 0,
        forall|i: int| 0 <= i < digits.len() ==> is_digit(#[trigger] digits[i]),
        pos + digits.len() < s.len() ==> !is_digit(s[pos + digits.len()]),
    ensures
        digits_end(s, pos) == Some(pos + digits.len()),
        digits_value(digits) <= i32::MAX ==> primitive_literal(s, pos, Primitive::Int) == Some(
            (LiteralView::Int(digits_value(digits) as i32), pos + digits.len()),
        ),
        digits_value(digits) > i32::MAX ==> primitive_literal(s, pos, Primitive::Int) is None,
        digits_value(digits) <= i64::MAX ==> primitive_literal(s, pos, Primitive::Long) == Some(
            (LiteralView::Long(digits_value(digits) as i64), pos + digits.len()),
        ),
        digits_value(digits) > i64::MAX ==> primitive_literal(s, pos, Primitive::Long) is None,
{
    lemma_stands_chars(s, pos, digits);
    assert(s[pos] == digits[0]);
    assert forall|i: int| pos + 1 <= i < pos + digits.len() implies CharClass::Digit.holds(
        #[trigger] s[i],
    ) by {
        assert(s[i] == digits[i - pos]);
    }
    lemma_run_end_is(s, pos + 1, pos + digits.len(), CharClass::Digit);
}

/// `true` and `false`, with nothing of a name behind them, are read as the
/// two values of a boolean.
pub proof fn lemma_boolean_is_read(s: Seq<char>, pos: int, value: bool)
    requires
        stands_at(
            s,
            pos,
            if value {
                "true"@
            } else {
                "false"@
            },
        ),
        ({
            let end = pos + if value {
                4int
            } else {
                5int
            };
            end < s.len() ==> !is_ident_part(s[end])
        }),
    ensures
        primitive_literal(s, pos, Primitive::Boolean) == Some(
            (
                LiteralView::Boolean(value),
                pos + if value {
                    4int
                } else {
                    5int
                },
            ),
        ),
{
    reveal_strlit("true");
    reveal_strlit("false");
    if value {
        lemma_identifier_is_read(s, pos, "true"@);
    } else {
        lemma_identifier_is_read(s, pos, "false"@);
        assert(keyword_end(s, pos, "true"@) is None);
    }
}

/// A text in double quotes that holds no double quote is read as that text.
pub proof fn lemma_quoted_is_read(s: Seq<char>, pos: int, content: Seq<char>)
    requires
        stands_at(s, pos, seq!['"'] + content + seq!['"']),
        forall|i: int| 0 <= i < content.len() ==> (#[trigger] content[i]) != '"',
    ensures
        primitive_literal(s, pos, Primitive::String) == Some(
            (LiteralView::String(content), pos + content.len() + 2),
        ),
{
    let whole = seq!['"'] + content + seq!['"'];
    lemma_stands_chars(s, pos, whole);
    assert(s[pos] == whole[0]);
    assert(s[pos + content.len() + 1] == whole[content.len() as int + 1]);
    assert forall|i: int| pos + 1 <= i < pos + 1 + content.len() implies CharClass::NotQuote.holds(
        #[trigger] s[i],
    ) by {
        assert(s[i] == whole[i - pos]);
        assert(whole[i - pos] == content[i - pos - 1]);
    }
    lemma_run_end_is(s, pos + 1, pos + 1 + content.len(), CharClass::NotQuote);
    assert(s.subrange(pos + 1, pos + content.len() + 1) =~= content) by {
        assert forall|i: int| 0 <= i < content.len() implies s[pos + 1 + i] == content[i] by {
            assert(s[pos + 1 + i] == whole[i + 1]);
        }
    }
}

/// A decimal number that stands at `pos` with no digit behind it is read,
/// whole, as the default of a float or a double, in the text in which it is
/// written.
pub proof fn lemma_decimal_is_read(s: Seq<char>, pos: int, number: Seq<char>)
    requires
        stands_at(s, pos, number),
        crate::ast::is_decimal_text(number),
        pos + number.len() < s.len() ==> !is_digit(s[pos + number.len()]),
    ensures
        decimal_end(s, pos) == Some(pos + number.len()),
        primitive_literal(s, pos, Primitive::Float) == Some(
            (LiteralView::Float(number), pos + number.len()),
        ),
        primitive_literal(s, pos, Primitive::Double) == Some(
            (LiteralView::Double(number), pos + number.len()),
        ),
{
    lemma_stands_chars(s, pos, number);
    let n = number.len() as int;
    let start = if number[0] == '-' {
        1int
    } else {
        0int
    };
    assert(s[pos] == number[0]);
    assert(s[pos + start] == number[start]);
    let point = if number[start] == '0' {
        start + 1
    } else {
        run_end(number, start + 1, CharClass::Digit)
    };
    crate::scan::lemma_run_end(number, start + 1, CharClass::Digit);
    crate::scan::lemma_run_end(number, point + 2, CharClass::Digit);
    assert(number[point] == '.');
    assert(s[pos + point] == number[point]);
    assert(s[pos + point + 1] == number[point + 1]);
    if number[start] != '0' {
        assert forall|i: int| pos + start + 1 <= i < pos + point implies CharClass::Digit.holds(
            #[trigger] s[i],
        ) by {
            assert(s[i] == number[i - pos]);
            assert(CharClass::Digit.holds(number[i - pos]));
        }
        lemma_run_end_is(s, pos + start + 1, pos + point, CharClass::Digit);
    }
    assert forall|i: int| pos + point + 2 <= i < pos + n implies CharClass::Digit.holds(
        #[trigger] s[i],
    ) by {
        assert(s[i] == number[i - pos]);
        assert(CharClass::Digit.holds(number[i - pos]));
    }
    lemma_run_end_is(s, pos + point + 2, pos + n, CharClass::Digit);
    assert(whole_end(s, pos + start) == Some(pos + point));
    assert(digits_end(s, pos + point + 1) == Some(pos + n));
}

} // verus!
