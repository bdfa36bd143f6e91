//! What every tree that the grammar produces looks like, whatever the text.

use crate::ast::{HasDefault, LiteralView, RawFieldView};
use crate::grammar::{
    array_field, declaration, declarations, enum_declaration, import_declaration, members,
    more_members, optional_reference_field, primitive_field, primitive_field_of, protocol,
    record_declaration, record_field, record_fields, reference_field, union_field, unnamed,
    Primitive,
};
use vstd::prelude::*;

verus! {

/// A type as it stands without a name: one of the six primitive types with
/// nothing on it, the null type, or the placeholder of a reference with
/// neither name nor docstring.
pub open spec fn is_unnamed_type(field: RawFieldView) -> bool {
    ||| field == Primitive::Int.bare()
    ||| field == Primitive::Long.bare()
    ||| field == Primitive::Float.bare()
    ||| field == Primitive::Double.bare()
    ||| field == Primitive::Boolean.bare()
    ||| field == Primitive::String.bare()
    ||| field == RawFieldView::Null
    ||| field matches RawFieldView::Unresolved(None, _, None)
}

/// True when every one of `fields` is a type without a name.
pub open spec fn all_unnamed_types(fields: Seq<RawFieldView>) -> bool {
    forall|i: int| 0 <= i < fields.len() ==> is_unnamed_type(#[trigger] fields[i])
}

/// True when the default is nothing or a value: it is not the explicit null.
pub open spec fn is_not_null<T>(default: HasDefault<T>) -> bool {
    !(default is DefaultNull)
}

/// A field as it stands in a record. It has a name. A primitive field never
/// has the explicit null as its default; the members of a union and the
/// element of an array are types without names, so no union holds a union;
/// the default of a union is never the null literal as a value, which is
/// what the explicit null is for; an array has no default.
pub open spec fn is_record_field(field: RawFieldView) -> bool {
    match field {
        RawFieldView::Int(name, default, _) => name is Some && is_not_null(default),
        RawFieldView::Long(name, default, _) => name is Some && is_not_null(default),
        RawFieldView::Float(name, default, _) => name is Some && is_not_null(default),
        RawFieldView::Double(name, default, _) => name is Some && is_not_null(default),
        RawFieldView::Boolean(name, default, _) => name is Some && is_not_null(default),
        RawFieldView::String(name, default, _) => name is Some && is_not_null(default),
        RawFieldView::Union(name, types, default, _) => name is Some && all_unnamed_types(types)
            && default != HasDefault::DefaultValue(LiteralView::Null),
        RawFieldView::Array(name, element, default, _) => name is Some && is_unnamed_type(
            *element,
        ) && default is NoDefault,
        RawFieldView::Unresolved(name, _, _) => name is Some,
        _ => false,
    }
}

/// True when every one of `fields` is a field as it stands in a record.
pub open spec fn all_record_fields(fields: Seq<RawFieldView>) -> bool {
    forall|i: int| 0 <= i < fields.len() ==> is_record_field(#[trigger] fields[i])
}

/// A declaration as it stands in a protocol: an import, a record with a name,
/// without a namespace and with fields as above, or an enum with a name, at
/// least one symbol, no namespace, and a default that is not the explicit
/// null.
pub open spec fn is_declaration(field: RawFieldView) -> bool {
    match field {
        RawFieldView::Import(_) => true,
        RawFieldView::Record(name, fields, namespace, _) => name is Some && namespace is None
            && all_record_fields(fields),
        RawFieldView::Enum(name, symbols, default, namespace, _) => name is Some && namespace
            is None && symbols.len() > 0 && is_not_null(default),
        _ => false,
    }
}

/// True when every one of `fields` is a declaration as it stands in a
/// protocol.
pub open spec fn all_declarations(fields: Seq<RawFieldView>) -> bool {
    forall|i: int| 0 <= i < fields.len() ==> is_declaration(#[trigger] fields[i])
}

/// A protocol as the grammar gives it: it has a name and no docstring, and
/// holds declarations as above.
pub open spec fn is_parsed_protocol(tree: RawFieldView) -> bool {
    tree matches RawFieldView::Protocol(name, fields, _, doc) && name is Some && doc is None
        && all_declarations(fields)
}

/// A type read without a name is one of the types that can stand without a
/// name.
pub proof fn lemma_unnamed_shape(s: Seq<char>, pos: int)
    ensures
        unnamed(s, pos) matches Some((field, _)) ==> is_unnamed_type(field),
{
}

proof fn lemma_more_members_shape(s: Seq<char>, pos: int, found: Seq<RawFieldView>)
    requires
        all_unnamed_types(found),
    ensures
        all_unnamed_types(more_members(s, pos, found).0),
    decreases s.len() - pos,
{
    match crate::grammar::expect_padded(s, pos, ',') {
        Some(at) => match unnamed(s, at) {
            Some((member, end)) => {
                if pos < end <= s.len() {
                    lemma_unnamed_shape(s, at);
                    lemma_more_members_shape(s, end, found.push(member));
                }
            },
            None => {},
        },
        None => {},
    }
}

/// The members of a union are types without names.
pub proof fn lemma_members_shape(s: Seq<char>, pos: int)
    ensures
        all_unnamed_types(members(s, pos).0),
{
    match unnamed(s, pos) {
        Some((member, end)) => {
            lemma_unnamed_shape(s, pos);
            lemma_more_members_shape(s, end, seq![member]);
        },
        None => {},
    }
}

/// A primitive field is a field of its type whose default is not the
/// explicit null, or the union of its type and null.
pub proof fn lemma_primitive_shape(s: Seq<char>, pos: int, doc: Option<Seq<char>>, kind: Primitive)
    ensures
        primitive_field_of(s, pos, doc, kind) matches Some((field, _)) ==> is_record_field(field),
{
    match primitive_field_of(s, pos, doc, kind) {
        Some((field, _)) => {
            if field is Union {
                assert(is_unnamed_type(kind.bare()));
                assert(is_unnamed_type(RawFieldView::Null));
            }
        },
        None => {},
    }
}

/// Whatever the text, a field of a record has the shape of a record field.
pub proof fn lemma_record_field_shape(s: Seq<char>, pos: int)
    ensures
        record_field(s, pos) matches Some((field, _)) ==> is_record_field(field),
{
    let (doc, at) = crate::grammar::optional_docstring(s, pos);
    lemma_primitive_shape(s, at, doc, Primitive::Int);
    lemma_primitive_shape(s, at, doc, Primitive::Long);
    lemma_primitive_shape(s, at, doc, Primitive::Float);
    lemma_primitive_shape(s, at, doc, Primitive::Double);
    lemma_primitive_shape(s, at, doc, Primitive::Boolean);
    lemma_primitive_shape(s, at, doc, Primitive::String);
    if primitive_field(s, pos) is Some {
    } else if array_field(s, pos) is Some {
        let word_end = crate::scan::keyword_end(s, at, "array"@)->Some_0;
        lemma_unnamed_shape(s, word_end + 1);
    } else if reference_field(s, pos) is Some {
    } else if optional_reference_field(s, pos) is Some {
        let field = optional_reference_field(s, pos)->Some_0.0;
        assert(all_unnamed_types(field->Union_1));
    } else if union_field(s, pos) is Some {
        let word_end = crate::scan::keyword_end(s, crate::scan::skip_ws(s, at), "union"@)->Some_0;
        let inside = crate::grammar::expect_padded(s, word_end, '{')->Some_0;
        lemma_members_shape(s, inside);
    }
}

proof fn lemma_record_fields_shape(s: Seq<char>, pos: int, found: Seq<RawFieldView>)
    requires
        all_record_fields(found),
    ensures
        all_record_fields(record_fields(s, pos, found).0),
    decreases s.len() - pos,
{
    match record_field(s, pos) {
        Some((field, end)) => {
            if pos < end <= s.len() {
                lemma_record_field_shape(s, pos);
                lemma_record_fields_shape(s, end, found.push(field));
            }
        },
        None => {},
    }
}

/// Whatever the text, a declaration has the shape of a declaration.
pub proof fn lemma_declaration_shape(s: Seq<char>, pos: int)
    ensures
        declaration(s, pos) matches Some((field, _)) ==> is_declaration(field),
{
    if import_declaration(s, pos) is Some {
    } else if record_declaration(s, pos) is Some {
        let inside = crate::grammar::record_opening(s, pos)->Some_0.2;
        lemma_record_fields_shape(s, inside, Seq::empty());
    } else if enum_declaration(s, pos) is Some {
    }
}

proof fn lemma_declarations_shape(s: Seq<char>, pos: int, found: Seq<RawFieldView>)
    requires
        all_declarations(found),
    ensures
        all_declarations(declarations(s, pos, found).0),
    decreases s.len() - pos,
{
    match declaration(s, pos) {
        Some((field, end)) => {
            if pos < end <= s.len() {
                lemma_declaration_shape(s, pos);
                lemma_declarations_shape(s, end, found.push(field));
            }
        },
        None => {},
    }
}

/// Whatever the text, the protocol that the grammar reads from it is a named
/// protocol of imports, named records and named enums. Its records hold
/// named fields; no primitive field has the explicit null as its default;
/// no union holds a union; an import stands nowhere but among the
/// declarations of the protocol.
pub proof fn lemma_protocol_shape(s: Seq<char>)
    ensures
        protocol(s) matches Ok(tree) ==> is_parsed_protocol(tree),
{
    match protocol(s) {
        Ok(tree) => {
            let start = match crate::grammar::namespace(s) {
                Some((_, end)) => end,
                None => 0,
            };
            let word_end = crate::scan::keyword_end(s, crate::scan::skip_ws(s, start), "protocol"@)->Some_0;
            let behind = crate::grammar::name(s, crate::scan::skip_ws(s, word_end))->Some_0.1;
            let open = crate::grammar::expect(s, crate::scan::skip_ws(s, behind), '{')->Some_0;
            lemma_declarations_shape(s, crate::scan::skip_ws(s, open), Seq::empty());
        },
        Err(_) => {},
    }
}

/// True when an import stands somewhere in `field`, at any depth.
pub open spec fn holds_import(field: RawFieldView) -> bool
    decreases field,
{
    match field {
        RawFieldView::Import(_) => true,
        RawFieldView::Protocol(_, fields, _, _) => any_holds_import(fields),
        RawFieldView::Record(_, fields, _, _) => any_holds_import(fields),
        RawFieldView::Union(_, types, _, _) => any_holds_import(types),
        RawFieldView::Array(_, element, _, _) => holds_import(*element),
        _ => false,
    }
}

/// True when an import stands somewhere in one of `fields`.
pub open spec fn any_holds_import(fields: Seq<RawFieldView>) -> bool
    decreases fields,
{
    fields.len() > 0 && (any_holds_import(fields.drop_last()) || holds_import(fields.last()))
}

/// An import stands in none of `fields` exactly when it stands in no single
/// one of them.
pub proof fn lemma_any_holds_import(fields: Seq<RawFieldView>)
    ensures
        !any_holds_import(fields) <==> forall|i: int|
            0 <= i < fields.len() ==> !holds_import(#[trigger] fields[i]),
    decreases fields.len(),
{
    if fields.len() > 0 {
        lemma_any_holds_import(fields.drop_last());
        if !any_holds_import(fields) {
            assert forall|i: int| 0 <= i < fields.len() implies !holds_import(
                #[trigger] fields[i],
            ) by {
                if i < fields.len() - 1 {
                    assert(fields.drop_last()[i] == fields[i]);
                }
            }
        } else {
            if any_holds_import(fields.drop_last()) {
                let i = choose|i: int|
                    0 <= i < fields.drop_last().len() && holds_import(
                        #[trigger] fields.drop_last()[i],
                    );
                assert(fields[i] == fields.drop_last()[i]);
            }
        }
    }
}

/// No import stands in a field of a record.
pub proof fn lemma_record_field_without_import(field: RawFieldView)
    requires
        is_record_field(field),
    ensures
        !holds_import(field),
{
    match field {
        RawFieldView::Union(_, types, _, _) => {
            lemma_any_holds_import(types);
            assert forall|i: int| 0 <= i < types.len() implies !holds_import(#[trigger] types[i]) by {
                assert(is_unnamed_type(types[i]));
            }
        },
        RawFieldView::Array(_, element, _, _) => {
            assert(is_unnamed_type(*element));
            assert(!holds_import(*element));
        },
        _ => {},
    }
}

/// True when every record and every enum among `declarations` has the
/// namespace `namespace`.
pub open spec fn in_namespace(declarations: Seq<RawFieldView>, namespace: Option<Seq<char>>) -> bool {
    forall|i: int|
        0 <= i < declarations.len() ==> match #[trigger] declarations[i] {
            RawFieldView::Record(_, _, own, _) => own == namespace,
            RawFieldView::Enum(_, _, _, own, _) => own == namespace,
            _ => true,
        }
}

/// A record or an enum as it stands in a complete protocol: it has a name,
/// and the fields of a record are fields as the grammar gives them.
pub open spec fn is_named_type(field: RawFieldView) -> bool {
    match field {
        RawFieldView::Record(name, fields, _, _) => name is Some && all_record_fields(fields),
        RawFieldView::Enum(name, _, _, _, _) => name is Some,
        _ => false,
    }
}

/// True when every one of `fields` is a named record or a named enum.
pub open spec fn all_named_types(fields: Seq<RawFieldView>) -> bool {
    forall|i: int| 0 <= i < fields.len() ==> is_named_type(#[trigger] fields[i])
}

/// A protocol with every import worked in: it has a name, it declares named
/// records and named enums and nothing else, and they have its namespace.
pub open spec fn is_complete_protocol(tree: RawFieldView) -> bool {
    tree matches RawFieldView::Protocol(name, declarations, namespace, _) && name is Some
        && all_named_types(declarations) && in_namespace(declarations, namespace)
}

/// No import stands anywhere in a complete protocol.
pub proof fn lemma_complete_protocol_without_import(tree: RawFieldView)
    requires
        is_complete_protocol(tree),
    ensures
        !holds_import(tree),
{
    let declarations = tree->Protocol_1;
    lemma_any_holds_import(declarations);
    assert forall|i: int| 0 <= i < declarations.len() implies !holds_import(
        #[trigger] declarations[i],
    ) by {
        let field = declarations[i];
        assert(is_named_type(field));
        match field {
            RawFieldView::Record(_, fields, _, _) => {
                lemma_any_holds_import(fields);
                assert forall|j: int| 0 <= j < fields.len() implies !holds_import(
                    #[trigger] fields[j],
                ) by {
                    assert(is_record_field(fields[j]));
                    lemma_record_field_without_import(fields[j]);
                }
            },
            _ => {},
        }
    }
}

} // verus!
