//! Rendering a resolved protocol as an Avro protocol document.

use crate::ast::{
    field_views, lemma_field_views, Field, FieldView, HasDefault, Literal, LiteralView,
};
use crate::error::{AvroError, AvroErrorView};
use crate::json::{json_views, lemma_json_views, lemma_json_views_push, Json, JsonView, Members};
use vstd::prelude::*;

verus! {

/// The failure for a protocol without a name.
pub open spec fn nameless_protocol() -> AvroErrorView {
    AvroErrorView::MissingName("Protocol doesn't have a name, but this is required!"@)
}

/// The failure for a record without a name.
pub open spec fn nameless_record() -> AvroErrorView {
    AvroErrorView::MissingName("Record doesn't have a name, but this is required!"@)
}

/// The failure for an enum without a name.
pub open spec fn nameless_enum() -> AvroErrorView {
    AvroErrorView::MissingName("Enum doesn't have a name, but this is required!"@)
}

/// The failure for a null type where a declaration or a field has to stand.
pub open spec fn unexpected_null() -> AvroErrorView {
    AvroErrorView::InvalidASTDataType("Cannot serialize Field::Null!"@)
}

/// A text, or null where there is none.
pub open spec fn optional_text(text: Option<Seq<char>>) -> JsonView {
    match text {
        Some(t) => JsonView::Text(t),
        None => JsonView::Null,
    }
}

/// `members`, and behind them the member `key` where there is a text for it.
pub open spec fn with_text(
    members: Seq<(Seq<char>, JsonView)>,
    key: Seq<char>,
    text: Option<Seq<char>>,
) -> Seq<(Seq<char>, JsonView)> {
    match text {
        Some(t) => members.push((key, JsonView::Text(t))),
        None => members,
    }
}

/// `members`, and behind them the member `default` where a default was
/// given: its value, or null for the explicit null.
pub open spec fn with_default(
    members: Seq<(Seq<char>, JsonView)>,
    default: HasDefault<JsonView>,
) -> Seq<(Seq<char>, JsonView)> {
    match default {
        HasDefault::DefaultValue(v) => members.push(("default"@, v)),
        HasDefault::DefaultNull => members.push(("default"@, JsonView::Null)),
        HasDefault::NoDefault => members,
    }
}

/// A literal as a JSON value.
pub open spec fn literal_json(literal: LiteralView) -> JsonView {
    match literal {
        LiteralView::Int(v) => JsonView::Integer(v as i64),
        LiteralView::Long(v) => JsonView::Integer(v),
        LiteralView::Float(v) => JsonView::Float(v),
        LiteralView::Double(v) => JsonView::Double(v),
        LiteralView::Boolean(v) => JsonView::Bool(v),
        LiteralView::String(v) => JsonView::Text(v),
        LiteralView::Null => JsonView::Null,
    }
}

/// A default whose value is turned into JSON by `convert`.
pub open spec fn default_json<T>(
    default: HasDefault<T>,
    convert: spec_fn(T) -> JsonView,
) -> HasDefault<JsonView> {
    match default {
        HasDefault::DefaultValue(v) => HasDefault::DefaultValue(convert(v)),
        HasDefault::DefaultNull => HasDefault::DefaultNull,
        HasDefault::NoDefault => HasDefault::NoDefault,
    }
}

/// The texts `texts` as JSON values.
pub open spec fn text_list(texts: Seq<Seq<char>>) -> Seq<JsonView> {
    Seq::new(texts.len(), |i: int| JsonView::Text(texts[i]))
}

/// The names of the types of `fields`, as JSON values.
pub open spec fn type_names(fields: Seq<FieldView>) -> Seq<JsonView> {
    Seq::new(fields.len(), |i: int| JsonView::Text(fields[i].avro_type_name()))
}

/// The members that every named field begins with: its name, or null, and
/// the name of its type.
pub open spec fn name_and_type(name: Option<Seq<char>>, kind: Seq<char>) -> Seq<
    (Seq<char>, JsonView),
> {
    seq![("name"@, optional_text(name)), ("type"@, JsonView::Text(kind))]
}

/// The document for `field`, or why there is none.
///
/// A protocol has the members `protocol` and `types`, a record `type`,
/// `name` and `fields`, an enum `type`, `name` and `symbols`; a field has
/// `name` and `type`; a union has the names of its member types as `type`,
/// an array the name of its element type as `items`. `default`, `namespace`
/// and `doc` follow where the node has them. A protocol, a record or an
/// enum without a name has no document, nor has the null type on its own.
pub open spec fn render(field: FieldView) -> Result<JsonView, AvroErrorView>
    decreases field,
{
    match field {
        FieldView::Protocol(name, fields, namespace, doc) => match name {
            None => Err(nameless_protocol()),
            Some(n) => match render_all(fields) {
                Err(e) => Err(e),
                Ok(types) => Ok(
                    JsonView::Object(
                        with_text(
                            with_text(
                                seq![
                                    ("protocol"@, JsonView::Text(n)),
                                    ("types"@, JsonView::List(types)),
                                ],
                                "namespace"@,
                                namespace,
                            ),
                            "doc"@,
                            doc,
                        ),
                    ),
                ),
            },
        },
        FieldView::Int(name, default, doc) => Ok(
            JsonView::Object(
                with_text(
                    with_default(
                        name_and_type(name, field.avro_type_name()),
                        default_json(default, |v: i32| JsonView::Integer(v as i64)),
                    ),
                    "doc"@,
                    doc,
                ),
            ),
        ),
        FieldView::Long(name, default, doc) => Ok(
            JsonView::Object(
                with_text(
                    with_default(
                        name_and_type(name, field.avro_type_name()),
                        default_json(default, |v: i64| JsonView::Integer(v)),
                    ),
                    "doc"@,
                    doc,
                ),
            ),
        ),
        FieldView::Float(name, default, doc) => Ok(
            JsonView::Object(
                with_text(
                    with_default(
                        name_and_type(name, field.avro_type_name()),
                        default_json(default, |v: Seq<char>| JsonView::Float(v)),
                    ),
                    "doc"@,
                    doc,
                ),
            ),
        ),
        FieldView::Double(name, default, doc) => Ok(
            JsonView::Object(
                with_text(
                    with_default(
                        name_and_type(name, field.avro_type_name()),
                        default_json(default, |v: Seq<char>| JsonView::Double(v)),
                    ),
                    "doc"@,
                    doc,
                ),
            ),
        ),
        FieldView::Boolean(name, default, doc) => Ok(
            JsonView::Object(
                with_text(
                    with_default(
                        name_and_type(name, field.avro_type_name()),
                        default_json(default, |v: bool| JsonView::Bool(v)),
                    ),
                    "doc"@,
                    doc,
                ),
            ),
        ),
        FieldView::String(name, default, doc) => Ok(
            JsonView::Object(
                with_text(
                    with_default(
                        name_and_type(name, field.avro_type_name()),
                        default_json(default, |v: Seq<char>| JsonView::Text(v)),
                    ),
                    "doc"@,
                    doc,
                ),
            ),
        ),
        FieldView::Record(name, fields, namespace, doc) => match name {
            None => Err(nameless_record()),
            Some(n) => match render_all(fields) {
                Err(e) => Err(e),
                Ok(rendered) => Ok(
                    JsonView::Object(
                        with_text(
                            with_text(
                                seq![
                                    ("type"@, JsonView::Text(field.avro_type_name())),
                                    ("name"@, JsonView::Text(n)),
                                    ("fields"@, JsonView::List(rendered)),
                                ],
                                "namespace"@,
                                namespace,
                            ),
                            "doc"@,
                            doc,
                        ),
                    ),
                ),
            },
        },
        FieldView::Enum(name, symbols, default, namespace, doc) => match name {
            None => Err(nameless_enum()),
            Some(n) => Ok(
                JsonView::Object(
                    with_text(
                        with_text(
                            with_default(
                                seq![
                                    ("type"@, JsonView::Text(field.avro_type_name())),
                                    ("name"@, JsonView::Text(n)),
                                    ("symbols"@, JsonView::List(text_list(symbols))),
                                ],
                                default_json(default, |v: Seq<char>| JsonView::Text(v)),
                            ),
                            "namespace"@,
                            namespace,
                        ),
                        "doc"@,
                        doc,
                    ),
                ),
            ),
        },
        FieldView::Union(name, members, default, doc) => Ok(
            JsonView::Object(
                with_text(
                    with_default(
                        seq![
                            ("type"@, JsonView::List(type_names(members))),
                            ("name"@, optional_text(name)),
                        ],
                        default_json(default, |v: LiteralView| literal_json(v)),
                    ),
                    "doc"@,
                    doc,
                ),
            ),
        ),
        FieldView::Array(name, element, _, doc) => Ok(
            JsonView::Object(
                with_text(
                    seq![
                        ("type"@, JsonView::Text("array"@)),
                        ("name"@, optional_text(name)),
                        ("items"@, JsonView::Text(element.avro_type_name())),
                    ],
                    "doc"@,
                    doc,
                ),
            ),
        ),
        FieldView::RecordReference(name, target, doc) => Ok(
            JsonView::Object(with_text(name_and_type(name, target), "doc"@, doc)),
        ),
        FieldView::EnumReference(name, target, default, doc) => Ok(
            JsonView::Object(
                with_text(
                    with_default(
                        name_and_type(name, target),
                        default_json(default, |v: Seq<char>| JsonView::Text(v)),
                    ),
                    "doc"@,
                    doc,
                ),
            ),
        ),
        FieldView::Null => Err(unexpected_null()),
    }
}

/// The documents for `fields`, in the same order, or the failure of the
/// first field that has one.
pub open spec fn render_all(fields: Seq<FieldView>) -> Result<Seq<JsonView>, AvroErrorView>
    decreases fields,
{
    if fields.len() == 0 {
        Ok(Seq::empty())
    } else {
        match render_all(fields.drop_last()) {
            Err(e) => Err(e),
            Ok(rendered) => match render(fields.last()) {
                Err(e) => Err(e),
                Ok(last) => Ok(rendered.push(last)),
            },
        }
    }
}

/// The model of what rendering returns.
pub open spec fn rendered_view(res: Result<Json, AvroError>) -> Result<JsonView, AvroErrorView> {
    match res {
        Ok(json) => Ok(json.deep_view()),
        Err(e) => Err(e.deep_view()),
    }
}

/// The model of what rendering a list returns.
pub open spec fn rendered_views(res: Result<Vec<Json>, AvroError>) -> Result<
    Seq<JsonView>,
    AvroErrorView,
> {
    match res {
        Ok(items) => Ok(json_views(items@)),
        Err(e) => Err(e.deep_view()),
    }
}

/// A text, or null where there is none.
fn text_or_null(text: &Option<String>) -> (res: Json)
    ensures
        res.deep_view() == optional_text(text.deep_view()),
{
    match text {
        Some(t) => Json::Text(t.clone()),
        None => Json::Null,
    }
}

/// Adds the member `key` where there is a text for it.
fn add_text(members: &mut Members, key: &str, text: &Option<String>)
    ensures
        final(members)@ == with_text(old(members)@, key@, text.deep_view()),
{
    match text {
        Some(t) => {
            members.add(key, Json::Text(t.clone()));
        },
        None => {},
    }
}

/// Adds the member `default` where a default was given.
fn add_default(members: &mut Members, default: HasDefault<Json>)
    ensures
        final(members)@ == with_default(old(members)@, default.deep_view()),
{
    match default {
        HasDefault::DefaultValue(v) => {
            members.add("default", v);
        },
        HasDefault::DefaultNull => {
            members.add("default", Json::Null);
        },
        HasDefault::NoDefault => {},
    }
}

/// The members that every named field begins with.
fn begin_field(name: &Option<String>, kind: String) -> (res: Members)
    ensures
        res@ == name_and_type(name.deep_view(), kind@),
{
    let mut members = Members::new();
    members.add("name", text_or_null(name));
    members.add("type", Json::Text(kind));
    assert(members@ =~= name_and_type(name.deep_view(), kind@));
    members
}

/// A literal as a JSON value.
fn literal_to_json(literal: &Literal) -> (res: Json)
    ensures
        res.deep_view() == literal_json(literal.deep_view()),
{
    match literal {
        Literal::Int(v) => Json::Integer(*v as i64),
        Literal::Long(v) => Json::Integer(*v),
        Literal::Float(v) => Json::Float(v.clone()),
        Literal::Double(v) => Json::Double(v.clone()),
        Literal::Boolean(v) => Json::Bool(*v),
        Literal::String(v) => Json::Text(v.clone()),
        Literal::Null => Json::Null,
    }
}

/// The default of a field of text, as JSON.
fn text_default(default: &HasDefault<String>) -> (res: HasDefault<Json>)
    ensures
        res.deep_view() == default_json(default.deep_view(), |v: Seq<char>| JsonView::Text(v)),
{
    match default {
        HasDefault::DefaultValue(v) => HasDefault::DefaultValue(Json::Text(v.clone())),
        HasDefault::DefaultNull => HasDefault::DefaultNull,
        HasDefault::NoDefault => HasDefault::NoDefault,
    }
}

/// The texts `texts` as JSON values.
fn texts_to_json(texts: &Vec<String>) -> (res: Vec<Json>)
    ensures
        json_views(res@) == text_list(texts.deep_view()),
{
    let mut items: Vec<Json> = Vec::new();
    let mut i: usize = 0;
    while i < texts.len()
        invariant
            i <= texts.len(),
            items.len() == i,
            forall|j: int| 0 <= j < i ==> items@[j].deep_view() == JsonView::Text(texts@[j]@),
        decreases texts.len() - i,
    {
        items.push(Json::Text(texts[i].clone()));
        i += 1;
    }
    proof {
        lemma_json_views(items@);
        assert(json_views(items@) =~= text_list(texts.deep_view()));
    }
    items
}

/// The names of the types of `fields`, as JSON values.
fn type_names_to_json(fields: &Vec<Field>) -> (res: Vec<Json>)
    ensures
        json_views(res@) == type_names(field_views(fields@)),
{
    let mut items: Vec<Json> = Vec::new();
    let mut i: usize = 0;
    while i < fields.len()
        invariant
            i <= fields.len(),
            items.len() == i,
            forall|j: int|
                0 <= j < i ==> items@[j].deep_view() == JsonView::Text(
                    fields@[j].deep_view().avro_type_name(),
                ),
        decreases fields.len() - i,
    {
        match fields[i].get_avro_type_name() {
            Some(name) => {
                items.push(Json::Text(name));
            },
            None => {},
        }
        i += 1;
    }
    proof {
        lemma_json_views(items@);
        lemma_field_views(fields@);
        assert(json_views(items@) =~= type_names(field_views(fields@)));
    }
    items
}

/// Renders a resolved protocol in the Avro protocol format.
pub struct AvprSerializer {
    protocol: Field,
}

impl View for AvprSerializer {
    type V = FieldView;

    closed spec fn view(&self) -> FieldView {
        self.protocol.deep_view()
    }
}

impl AvprSerializer {
    /// A serializer for `protocol`.
    pub fn new(protocol: Field) -> (res: Self)
        ensures
            res@ == protocol.deep_view(),
    {
        Self { protocol }
    }

    /// The document of the protocol, or the first failure met in the order
    /// of the tree.
    pub fn serialize(&self) -> (res: Result<Json, AvroError>)
        ensures
            rendered_view(res) == render(self@),
            res matches Ok(json) ==> is_well_keyed(json.deep_view()),
    {
        proof {
            lemma_document_is_well_keyed(self@);
        }
        self.serialize_field(&self.protocol)
    }

    fn serialize_all(&self, fields: &Vec<Field>) -> (res: Result<Vec<Json>, AvroError>)
        ensures
            rendered_views(res) == render_all(field_views(fields@)),
        decreases fields,
    {
        let mut rendered: Vec<Json> = Vec::new();
        let mut i: usize = 0;
        assert(fields@.take(0) =~= Seq::<Field>::empty());
        while i < fields.len()
            invariant
                i <= fields.len(),
                render_all(field_views(fields@.take(i as int))) == Ok::<
                    Seq<JsonView>,
                    AvroErrorView,
                >(json_views(rendered@)),
            decreases fields.len() - i,
        {
            let ghost before = fields@.take(i as int);
            let ghost longer = fields@.take(i + 1);
            proof {
                assert(longer.drop_last() =~= before);
                assert(longer.last() == fields@[i as int]);
                lemma_field_views(longer);
                lemma_field_views(before);
                lemma_field_views(fields@);
                assert(field_views(longer).drop_last() =~= field_views(before));
                lemma_first_failure_stops(field_views(fields@), i + 1);
            }
            match self.serialize_field(&fields[i]) {
                Ok(json) => {
                    proof {
                        lemma_json_views_push(rendered@, json);
                    }
                    rendered.push(json);
                },
                Err(e) => {
                    proof {
                        assert(field_views(fields@).take(i + 1) =~= field_views(longer));
                    }
                    return Err(e);
                },
            }
            i += 1;
        }
        assert(fields@.take(i as int) =~= fields@);
        Ok(rendered)
    }

    fn serialize_field(&self, field: &Field) -> (res: Result<Json, AvroError>)
        ensures
            rendered_view(res) == render(field.deep_view()),
        decreases field,
    {
        match field {
            Field::Protocol(name, fields, namespace, doc) => match name {
                Some(n) => {
                    let types = self.serialize_all(fields)?;
                    let mut members = Members::new();
                    members.add("protocol", Json::Text(n.clone()));
                    members.add("types", Json::List(types));
                    assert(members@ =~= seq![
                        ("protocol"@, JsonView::Text(n@)),
                        ("types"@, JsonView::List(json_views(types@))),
                    ]);
                    add_text(&mut members, "namespace", namespace);
                    add_text(&mut members, "doc", doc);
                    Ok(members.into_object())
                },
                None => Err(
                    AvroError::MissingName(
                        "Protocol doesn't have a name, but this is required!".to_owned(),
                    ),
                ),
            },
            Field::Int(name, default, doc) => {
                let mut members = begin_field(name, "int".to_owned());
                let value = match default {
                    HasDefault::DefaultValue(v) => HasDefault::DefaultValue(Json::Integer(*v as i64)),
                    HasDefault::DefaultNull => HasDefault::DefaultNull,
                    HasDefault::NoDefault => HasDefault::NoDefault,
                };
                add_default(&mut members, value);
                add_text(&mut members, "doc", doc);
                Ok(members.into_object())
            },
            Field::Long(name, default, doc) => {
                let mut members = begin_field(name, "long".to_owned());
                let value = match default {
                    HasDefault::DefaultValue(v) => HasDefault::DefaultValue(Json::Integer(*v)),
                    HasDefault::DefaultNull => HasDefault::DefaultNull,
                    HasDefault::NoDefault => HasDefault::NoDefault,
                };
                add_default(&mut members, value);
                add_text(&mut members, "doc", doc);
                Ok(members.into_object())
            },
            Field::Float(name, default, doc) => {
                let mut members = begin_field(name, "float".to_owned());
                let value = match default {
                    HasDefault::DefaultValue(v) => HasDefault::DefaultValue(Json::Float(v.clone())),
                    HasDefault::DefaultNull => HasDefault::DefaultNull,
                    HasDefault::NoDefault => HasDefault::NoDefault,
                };
                add_default(&mut members, value);
                add_text(&mut members, "doc", doc);
                Ok(members.into_object())
            },
            Field::Double(name, default, doc) => {
                let mut members = begin_field(name, "double".to_owned());
                let value = match default {
                    HasDefault::DefaultValue(v) => HasDefault::DefaultValue(
                        Json::Double(v.clone()),
                    ),
                    HasDefault::DefaultNull => HasDefault::DefaultNull,
                    HasDefault::NoDefault => HasDefault::NoDefault,
                };
                add_default(&mut members, value);
                add_text(&mut members, "doc", doc);
                Ok(members.into_object())
            },
            Field::Boolean(name, default, doc) => {
                let mut members = begin_field(name, "boolean".to_owned());
                let value = match default {
                    HasDefault::DefaultValue(v) => HasDefault::DefaultValue(Json::Bool(*v)),
                    HasDefault::DefaultNull => HasDefault::DefaultNull,
                    HasDefault::NoDefault => HasDefault::NoDefault,
                };
                add_default(&mut members, value);
                add_text(&mut members, "doc", doc);
                Ok(members.into_object())
            },
            Field::String(name, default, doc) => {
                let mut members = begin_field(name, "string".to_owned());
                add_default(&mut members, text_default(default));
                add_text(&mut members, "doc", doc);
                Ok(members.into_object())
            },
            Field::Record(name, fields, namespace, doc) => match name {
                Some(n) => {
                    let rendered = self.serialize_all(fields)?;
                    let mut members = Members::new();
                    members.add("type", Json::Text("record".to_owned()));
                    members.add("name", Json::Text(n.clone()));
                    members.add("fields", Json::List(rendered));
                    assert(members@ =~= seq![
                        ("type"@, JsonView::Text("record"@)),
                        ("name"@, JsonView::Text(n@)),
                        ("fields"@, JsonView::List(json_views(rendered@))),
                    ]);
                    add_text(&mut members, "namespace", namespace);
                    add_text(&mut members, "doc", doc);
                    Ok(members.into_object())
                },
                None => Err(
                    AvroError::MissingName(
                        "Record doesn't have a name, but this is required!".to_owned(),
                    ),
                ),
            },
            Field::Enum(name, symbols, default, namespace, doc) => match name {
                Some(n) => {
                    let listed = texts_to_json(symbols);
                    let mut members = Members::new();
                    members.add("type", Json::Text("enum".to_owned()));
                    members.add("name", Json::Text(n.clone()));
                    members.add("symbols", Json::List(listed));
                    assert(members@ =~= seq![
                        ("type"@, JsonView::Text("enum"@)),
                        ("name"@, JsonView::Text(n@)),
                        ("symbols"@, JsonView::List(text_list(symbols.deep_view()))),
                    ]);
                    add_default(&mut members, text_default(default));
                    add_text(&mut members, "namespace", namespace);
                    add_text(&mut members, "doc", doc);
                    Ok(members.into_object())
                },
                None => Err(
                    AvroError::MissingName(
                        "Enum doesn't have a name, but this is required!".to_owned(),
                    ),
                ),
            },
            Field::Union(name, types, default, doc) => {
                let names = type_names_to_json(types);
                let mut members = Members::new();
                members.add("type", Json::List(names));
                members.add("name", text_or_null(name));
                assert(members@ =~= seq![
                    ("type"@, JsonView::List(type_names(field_views(types@)))),
                    ("name"@, optional_text(name.deep_view())),
                ]);
                let value = match default {
                    HasDefault::DefaultValue(v) => HasDefault::DefaultValue(literal_to_json(v)),
                    HasDefault::DefaultNull => HasDefault::DefaultNull,
                    HasDefault::NoDefault => HasDefault::NoDefault,
                };
                add_default(&mut members, value);
                add_text(&mut members, "doc", doc);
                Ok(members.into_object())
            },
            Field::Array(name, element, _, doc) => {
                let items = match element.get_avro_type_name() {
                    Some(n) => Json::Text(n),
                    None => Json::Null,
                };
                let mut members = Members::new();
                members.add("type", Json::Text("array".to_owned()));
                members.add("name", text_or_null(name));
                members.add("items", items);
                assert(members@ =~= seq![
                    ("type"@, JsonView::Text("array"@)),
                    ("name"@, optional_text(name.deep_view())),
                    ("items"@, JsonView::Text(element.deep_view().avro_type_name())),
                ]);
                add_text(&mut members, "doc", doc);
                Ok(members.into_object())
            },
            Field::RecordReference(name, target, doc) => {
                let mut members = begin_field(name, target.clone());
                add_text(&mut members, "doc", doc);
                Ok(members.into_object())
            },
            Field::EnumReference(name, target, default, doc) => {
                let mut members = begin_field(name, target.clone());
                add_default(&mut members, text_default(default));
                add_text(&mut members, "doc", doc);
                Ok(members.into_object())
            },
            Field::Null => Err(
                AvroError::InvalidASTDataType("Cannot serialize Field::Null!".to_owned()),
            ),
        }
    }
}

/// Where rendering the first `n` fields fails, rendering all of them fails in
/// the same way.
pub proof fn lemma_first_failure_stops(fields: Seq<FieldView>, n: int)
    requires
        0 <= n <= fields.len(),
    ensures
        render_all(fields.take(n)) is Err ==> render_all(fields) == render_all(fields.take(n)),
    decreases fields.len() - n,
{
    if n < fields.len() {
        assert(fields.drop_last().take(n) =~= fields.take(n));
        lemma_first_failure_stops(fields.drop_last(), n);
    } else {
        assert(fields.take(n) =~= fields);
    }
}

/// True when no two of `members` have the same key.
pub open spec fn keys_differ(members: Seq<(Seq<char>, JsonView)>) -> bool {
    forall|i: int, j: int|
        0 <= i < j < members.len() ==> (#[trigger] members[i]).0 != (#[trigger] members[j]).0
}

/// True when no object in `json`, at any depth, has two members with the
/// same key.
pub open spec fn is_well_keyed(json: JsonView) -> bool
    decreases json,
{
    match json {
        JsonView::List(items) => all_well_keyed(items),
        JsonView::Object(members) => keys_differ(members) && all_values_well_keyed(members),
        _ => true,
    }
}

/// True when every one of `items` is well keyed.
pub open spec fn all_well_keyed(items: Seq<JsonView>) -> bool
    decreases items,
{
    items.len() == 0 || (all_well_keyed(items.drop_last()) && is_well_keyed(items.last()))
}

/// True when the value of every one of `members` is well keyed.
pub open spec fn all_values_well_keyed(members: Seq<(Seq<char>, JsonView)>) -> bool
    decreases members,
{
    members.len() == 0 || (all_values_well_keyed(members.drop_last()) && is_well_keyed(
        members.last().1,
    ))
}

/// The keys that a document uses are ten different words.
proof fn lemma_keys_differ()
    ensures
        "protocol"@.len() == 8 && "protocol"@[0] == 'p',
        "types"@.len() == 5 && "types"@[0] == 't',
        "namespace"@.len() == 9 && "namespace"@[0] == 'n',
        "doc"@.len() == 3 && "doc"@[0] == 'd',
        "name"@.len() == 4 && "name"@[0] == 'n',
        "type"@.len() == 4 && "type"@[0] == 't',
        "default"@.len() == 7 && "default"@[0] == 'd',
        "fields"@.len() == 6 && "fields"@[0] == 'f',
        "symbols"@.len() == 7 && "symbols"@[0] == 's',
        "items"@.len() == 5 && "items"@[0] == 'i',
{
    reveal_strlit("protocol");
    reveal_strlit("types");
    reveal_strlit("namespace");
    reveal_strlit("doc");
    reveal_strlit("name");
    reveal_strlit("type");
    reveal_strlit("default");
    reveal_strlit("fields");
    reveal_strlit("symbols");
    reveal_strlit("items");
}

/// A list of texts is well keyed: it holds no object.
proof fn lemma_texts_well_keyed(items: Seq<JsonView>)
    requires
        forall|i: int| 0 <= i < items.len() ==> (#[trigger] items[i]) is Text,
    ensures
        all_well_keyed(items),
    decreases items.len(),
{
    if items.len() > 0 {
        assert forall|i: int| 0 <= i < items.drop_last().len() implies (
        #[trigger] items.drop_last()[i]) is Text by {
            assert(items.drop_last()[i] == items[i]);
        }
        lemma_texts_well_keyed(items.drop_last());
        assert(items.last() is Text);
        assert(is_well_keyed(items.last()));
    }
}

/// Members are well keyed where their keys differ and each value is.
proof fn lemma_members_well_keyed(members: Seq<(Seq<char>, JsonView)>)
    requires
        forall|i: int| 0 <= i < members.len() ==> is_well_keyed((#[trigger] members[i]).1),
    ensures
        all_values_well_keyed(members),
    decreases members.len(),
{
    if members.len() > 0 {
        assert forall|i: int| 0 <= i < members.drop_last().len() implies is_well_keyed(
            (#[trigger] members.drop_last()[i]).1,
        ) by {
            assert(members.drop_last()[i] == members[i]);
        }
        lemma_members_well_keyed(members.drop_last());
        assert(is_well_keyed(members.last().1));
    }
}

/// Adding a text under a new key keeps members well keyed.
proof fn lemma_with_text_well_keyed(
    members: Seq<(Seq<char>, JsonView)>,
    key: Seq<char>,
    text: Option<Seq<char>>,
)
    requires
        keys_differ(members),
        forall|i: int| 0 <= i < members.len() ==> is_well_keyed((#[trigger] members[i]).1),
        forall|i: int| 0 <= i < members.len() ==> (#[trigger] members[i]).0 != key,
    ensures
        keys_differ(with_text(members, key, text)),
        forall|i: int|
            0 <= i < with_text(members, key, text).len() ==> is_well_keyed(
                (#[trigger] with_text(members, key, text)[i]).1,
            ),
        forall|i: int|
            0 <= i < with_text(members, key, text).len() ==> (#[trigger] with_text(
                members,
                key,
                text,
            )[i]).0 == key || exists|j: int|
                0 <= j < members.len() && members[j].0 == with_text(members, key, text)[i].0,
{
    let out = with_text(members, key, text);
    assert forall|i: int| 0 <= i < out.len() implies (#[trigger] out[i]).0 == key || exists|j: int|
        0 <= j < members.len() && members[j].0 == out[i].0 by {
        if i < members.len() {
            assert(members[i].0 == out[i].0);
        }
    }
}

/// Adding a default that holds no object keeps members well keyed.
proof fn lemma_with_default_well_keyed(
    members: Seq<(Seq<char>, JsonView)>,
    default: HasDefault<JsonView>,
)
    requires
        keys_differ(members),
        forall|i: int| 0 <= i < members.len() ==> is_well_keyed((#[trigger] members[i]).1),
        forall|i: int| 0 <= i < members.len() ==> (#[trigger] members[i]).0 != "default"@,
        default matches HasDefault::DefaultValue(v) ==> is_well_keyed(v),
    ensures
        keys_differ(with_default(members, default)),
        forall|i: int|
            0 <= i < with_default(members, default).len() ==> is_well_keyed(
                (#[trigger] with_default(members, default)[i]).1,
            ),
        forall|i: int|
            0 <= i < with_default(members, default).len() ==> (#[trigger] with_default(
                members,
                default,
            )[i]).0 == "default"@ || exists|j: int|
                0 <= j < members.len() && members[j].0 == with_default(members, default)[i].0,
{
    let out = with_default(members, default);
    assert forall|i: int| 0 <= i < out.len() implies (#[trigger] out[i]).0 == "default"@
        || exists|j: int| 0 <= j < members.len() && members[j].0 == out[i].0 by {
        if i < members.len() {
            assert(members[i].0 == out[i].0);
        }
    }
}

/// Members that begin with two or three given members, then take a default
/// that holds no object, then `namespace`, then `doc`, are well keyed where
/// the first members are, and none of their keys is one of those three.
proof fn lemma_object_is_well_keyed(
    base: Seq<(Seq<char>, JsonView)>,
    default: HasDefault<JsonView>,
    namespace: Option<Seq<char>>,
    doc: Option<Seq<char>>,
)
    requires
        keys_differ(base),
        forall|i: int| 0 <= i < base.len() ==> is_well_keyed((#[trigger] base[i]).1),
        forall|i: int|
            0 <= i < base.len() ==> (#[trigger] base[i]).0 != "default"@ && base[i].0
                != "namespace"@ && base[i].0 != "doc"@,
        default matches HasDefault::DefaultValue(v) ==> is_well_keyed(v),
    ensures
        is_well_keyed(
            JsonView::Object(
                with_text(with_text(with_default(base, default), "namespace"@, namespace), "doc"@, doc),
            ),
        ),
{
    lemma_keys_differ();
    lemma_with_default_well_keyed(base, default);
    let valued = with_default(base, default);
    assert forall|i: int| 0 <= i < valued.len() implies (#[trigger] valued[i]).0
        != "namespace"@ by {
        if i < base.len() {
            assert(valued[i] == base[i]);
        }
    }
    lemma_with_text_well_keyed(valued, "namespace"@, namespace);
    let spaced = with_text(valued, "namespace"@, namespace);
    assert forall|i: int| 0 <= i < spaced.len() implies (#[trigger] spaced[i]).0 != "doc"@ by {
        if i < base.len() {
            assert(spaced[i] == base[i]);
        } else if i < valued.len() {
            assert(spaced[i] == valued[i]);
        }
    }
    lemma_with_text_well_keyed(spaced, "doc"@, doc);
    lemma_members_well_keyed(with_text(spaced, "doc"@, doc));
}

/// In every document, at every depth, the members of an object have keys
/// that differ: a writer that keeps one value for each key loses nothing.
pub proof fn lemma_document_is_well_keyed(field: FieldView)
    ensures
        render(field) matches Ok(json) ==> is_well_keyed(json),
    decreases field, 0nat,
{
    lemma_keys_differ();
    let none = HasDefault::<JsonView>::NoDefault;
    if render(field) is Ok {
        match field {
            FieldView::Protocol(name, fields, namespace, doc) => {
                lemma_documents_are_well_keyed(fields);
                let base = seq![
                    ("protocol"@, JsonView::Text(name->Some_0)),
                    ("types"@, JsonView::List(render_all(fields)->Ok_0)),
                ];
                assert(is_well_keyed(base[0].1) && is_well_keyed(base[1].1));
                lemma_object_is_well_keyed(base, none, namespace, doc);
            },
            FieldView::Record(name, fields, namespace, doc) => {
                lemma_documents_are_well_keyed(fields);
                let base = seq![
                    ("type"@, JsonView::Text(field.avro_type_name())),
                    ("name"@, JsonView::Text(name->Some_0)),
                    ("fields"@, JsonView::List(render_all(fields)->Ok_0)),
                ];
                assert(is_well_keyed(base[0].1) && is_well_keyed(base[1].1) && is_well_keyed(
                    base[2].1,
                ));
                lemma_object_is_well_keyed(base, none, namespace, doc);
            },
            FieldView::Enum(name, symbols, default, namespace, doc) => {
                lemma_texts_well_keyed(text_list(symbols));
                let base = seq![
                    ("type"@, JsonView::Text(field.avro_type_name())),
                    ("name"@, JsonView::Text(name->Some_0)),
                    ("symbols"@, JsonView::List(text_list(symbols))),
                ];
                assert(is_well_keyed(base[0].1) && is_well_keyed(base[1].1) && is_well_keyed(
                    base[2].1,
                ));
                let value = default_json(default, |v: Seq<char>| JsonView::Text(v));
                lemma_object_is_well_keyed(base, value, namespace, doc);
            },
            FieldView::Union(name, types, default, doc) => {
                lemma_texts_well_keyed(type_names(types));
                let base = seq![
                    ("type"@, JsonView::List(type_names(types))),
                    ("name"@, optional_text(name)),
                ];
                assert(is_well_keyed(base[0].1) && is_well_keyed(base[1].1));
                let value = default_json(default, |v: LiteralView| literal_json(v));
                lemma_object_is_well_keyed(base, value, None, doc);
            },
            FieldView::Array(name, element, _, doc) => {
                let base = seq![
                    ("type"@, JsonView::Text("array"@)),
                    ("name"@, optional_text(name)),
                    ("items"@, JsonView::Text(element.avro_type_name())),
                ];
                assert(is_well_keyed(base[0].1) && is_well_keyed(base[1].1) && is_well_keyed(
                    base[2].1,
                ));
                lemma_object_is_well_keyed(base, none, None, doc);
            },
            FieldView::RecordReference(name, target, doc) => {
                lemma_field_is_well_keyed(name, target, none, doc);
            },
            FieldView::EnumReference(name, target, default, doc) => {
                lemma_field_is_well_keyed(
                    name,
                    target,
                    default_json(default, |v: Seq<char>| JsonView::Text(v)),
                    doc,
                );
            },
            FieldView::Int(name, default, doc) => {
                lemma_field_is_well_keyed(
                    name,
                    field.avro_type_name(),
                    default_json(default, |v: i32| JsonView::Integer(v as i64)),
                    doc,
                );
            },
            FieldView::Long(name, default, doc) => {
                lemma_field_is_well_keyed(
                    name,
                    field.avro_type_name(),
                    default_json(default, |v: i64| JsonView::Integer(v)),
                    doc,
                );
            },
            FieldView::Float(name, default, doc) => {
                lemma_field_is_well_keyed(
                    name,
                    field.avro_type_name(),
                    default_json(default, |v: Seq<char>| JsonView::Float(v)),
                    doc,
                );
            },
            FieldView::Double(name, default, doc) => {
                lemma_field_is_well_keyed(
                    name,
                    field.avro_type_name(),
                    default_json(default, |v: Seq<char>| JsonView::Double(v)),
                    doc,
                );
            },
            FieldView::Boolean(name, default, doc) => {
                lemma_field_is_well_keyed(
                    name,
                    field.avro_type_name(),
                    default_json(default, |v: bool| JsonView::Bool(v)),
                    doc,
                );
            },
            FieldView::String(name, default, doc) => {
                lemma_field_is_well_keyed(
                    name,
                    field.avro_type_name(),
                    default_json(default, |v: Seq<char>| JsonView::Text(v)),
                    doc,
                );
            },
            FieldView::Null => {},
        }
    }
}

/// The members `name`, `type`, `default` and `doc` are well keyed where the
/// default holds no object.
proof fn lemma_field_is_well_keyed(
    name: Option<Seq<char>>,
    kind: Seq<char>,
    default: HasDefault<JsonView>,
    doc: Option<Seq<char>>,
)
    requires
        default matches HasDefault::DefaultValue(v) ==> !(v is Object) && !(v is List),
    ensures
        is_well_keyed(
            JsonView::Object(with_text(with_default(name_and_type(name, kind), default), "doc"@, doc)),
        ),
{
    lemma_keys_differ();
    let base = name_and_type(name, kind);
    assert(is_well_keyed(base[0].1) && is_well_keyed(base[1].1));
    lemma_object_is_well_keyed(base, default, None, doc);
}

/// The documents of a list of fields are well keyed.
pub proof fn lemma_documents_are_well_keyed(fields: Seq<FieldView>)
    ensures
        render_all(fields) matches Ok(rendered) ==> all_well_keyed(rendered),
    decreases fields, 1nat,
{
    if fields.len() > 0 {
        lemma_documents_are_well_keyed(fields.drop_last());
        lemma_document_is_well_keyed(fields.last());
        match render_all(fields) {
            Ok(rendered) => {
                let before = render_all(fields.drop_last())->Ok_0;
                let last = render(fields.last())->Ok_0;
                assert(rendered.drop_last() =~= before);
            },
            Err(_) => {},
        }
    }
}

} // verus!
