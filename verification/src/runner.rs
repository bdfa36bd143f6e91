//! One run from a schema to a document: which file is read, which is
//! written, in which format, and what stands between a parsed protocol and
//! the document.

use crate::ast::{
    first_by_name, lemma_position_by_name, FieldView, RawField, RawFieldView,
};
use crate::error::{AvroError, AvroErrorView};
use crate::json::{Json, JsonView};
use crate::linker::{
    lemma_linking_keeps_the_list, link_all, link_field, link_protocol, undefined_reference, unlink,
    unlink_all, LinkParser,
};
use crate::serializer::{is_well_keyed, render, render_all, rendered_view, AvprSerializer};
use crate::shape::{
    all_named_types, all_record_fields, all_unnamed_types, is_complete_protocol, is_named_type,
    is_record_field, is_unnamed_type,
};
use vstd::prelude::*;

verus! {

/// The formats in which a protocol can be written.
#[derive(Clone, Copy, Debug, PartialEq, Eq)]
pub enum OutputFormat {
    /// An Avro protocol document
    AVPR,
}

/// The document for a protocol as the grammar gave it, in the format
/// `format`: the tree is linked and the linked tree is rendered. A failure of
/// either step is the failure of the whole.
pub open spec fn document_of(tree: RawFieldView, format: OutputFormat) -> Result<
    JsonView,
    AvroErrorView,
> {
    match link_protocol(tree) {
        Err(e) => Err(e),
        Ok(linked) => match format {
            OutputFormat::AVPR => render(linked),
        },
    }
}

/// The three things that describe a run.
pub struct AvroIdlParser {
    path: String,
    format: OutputFormat,
    output_path: String,
}

/// The model of an [`AvroIdlParser`].
pub struct AvroIdlParserView {
    pub path: Seq<char>,
    pub format: OutputFormat,
    pub output_path: Seq<char>,
}

impl View for AvroIdlParser {
    type V = AvroIdlParserView;

    closed spec fn view(&self) -> AvroIdlParserView {
        AvroIdlParserView {
            path: self.path@,
            format: self.format,
            output_path: self.output_path@,
        }
    }
}

impl AvroIdlParser {
    /// A run that turns the schema at `path` into a document at
    /// `output_path`, in the format `format`.
    pub fn new(path: String, output_path: String, format: OutputFormat) -> (res: Self)
        ensures
            res@ == (AvroIdlParserView { path: path@, format, output_path: output_path@ }),
    {
        Self { path, format, output_path }
    }

    /// The file that holds the schema.
    pub fn path(&self) -> (res: &String)
        ensures
            res@ == self@.path,
    {
        &self.path
    }

    /// The file that the document goes to.
    pub fn output_path(&self) -> (res: &String)
        ensures
            res@ == self@.output_path,
    {
        &self.output_path
    }

    /// The format of the document.
    pub fn format(&self) -> (res: OutputFormat)
        ensures
            res == self@.format,
    {
        self.format
    }

    /// The document for the protocol `ast`, which the lexer gave: `Ok` where
    /// the protocol links and the linked protocol has a document, otherwise
    /// the failure of the step that failed.
    pub fn parse(&self, ast: RawField) -> (res: Result<Json, AvroError>)
        ensures
            rendered_view(res) == document_of(ast.deep_view(), self@.format),
            is_complete_protocol(ast.deep_view()) ==> fails_only_for_a_missing_type(
                rendered_view(res),
            ),
            res matches Ok(json) ==> is_well_keyed(json.deep_view()),
    {
        proof {
            if is_complete_protocol(ast.deep_view()) {
                lemma_complete_protocol_has_a_document(ast.deep_view(), self@.format);
            }
        }
        let linker = LinkParser::new();
        let linked = linker.parse(ast)?;
        match self.format {
            OutputFormat::AVPR => {
                let serializer = AvprSerializer::new(linked);
                serializer.serialize()
            },
        }
    }
}

/// True when `res` is a success, or the failure for a reference to a name
/// that nothing declares.
pub open spec fn fails_only_for_a_missing_type<T>(res: Result<T, AvroErrorView>) -> bool {
    res is Ok || exists|target: Seq<char>| res->Err_0 == undefined_reference(target)
}

/// Among named records and named enums, a reference links or names what is
/// missing: what it finds is a record or an enum.
proof fn lemma_reference_links(
    decls: Seq<RawFieldView>,
    name: Option<Seq<char>>,
    target: Seq<char>,
    doc: Option<Seq<char>>,
)
    requires
        all_named_types(decls),
    ensures
        fails_only_for_a_missing_type(
            link_field(decls, RawFieldView::Unresolved(name, target, doc)),
        ),
{
    lemma_position_by_name(decls, target, 0);
    match first_by_name(decls, target) {
        Some(found) => {
            let at = crate::ast::position_by_name(decls, target, 0)->Some_0;
            assert(is_named_type(decls[at]));
        },
        None => {},
    }
}

/// A list links or names what is missing where the fields before the last
/// do and the last does.
proof fn lemma_last_decides(decls: Seq<RawFieldView>, fields: Seq<RawFieldView>)
    requires
        fields.len() > 0,
        fails_only_for_a_missing_type(link_all(decls, fields.drop_last())),
        fails_only_for_a_missing_type(link_field(decls, fields.last())),
    ensures
        fails_only_for_a_missing_type(link_all(decls, fields)),
{
    match link_all(decls, fields.drop_last()) {
        Err(e) => {
            assert(link_all(decls, fields) == Err::<Seq<FieldView>, AvroErrorView>(e));
            let target = choose|target: Seq<char>| e == undefined_reference(target);
            assert(link_all(decls, fields)->Err_0 == undefined_reference(target));
        },
        Ok(_) => match link_field(decls, fields.last()) {
            Err(e) => {
                assert(link_all(decls, fields) == Err::<Seq<FieldView>, AvroErrorView>(e));
                let target = choose|target: Seq<char>| e == undefined_reference(target);
                assert(link_all(decls, fields)->Err_0 == undefined_reference(target));
            },
            Ok(_) => {},
        },
    }
}

/// A node with children links or names what is missing where its children
/// do.
proof fn lemma_children_decide(decls: Seq<RawFieldView>, field: RawFieldView)
    requires
        match field {
            RawFieldView::Record(_, fields, _, _) => fails_only_for_a_missing_type(
                link_all(decls, fields),
            ),
            RawFieldView::Union(_, types, _, _) => fails_only_for_a_missing_type(
                link_all(decls, types),
            ),
            RawFieldView::Array(_, element, _, _) => fails_only_for_a_missing_type(
                link_field(decls, *element),
            ),
            _ => false,
        },
    ensures
        fails_only_for_a_missing_type(link_field(decls, field)),
{
    match link_field(decls, field) {
        Err(e) => {
            let inner = match field {
                RawFieldView::Record(_, fields, _, _) => link_all(decls, fields)->Err_0,
                RawFieldView::Union(_, types, _, _) => link_all(decls, types)->Err_0,
                RawFieldView::Array(_, element, _, _) => link_field(decls, *element)->Err_0,
                _ => arbitrary(),
            };
            assert(e == inner);
            let target = choose|target: Seq<char>| inner == undefined_reference(target);
            assert(link_field(decls, field)->Err_0 == undefined_reference(target));
        },
        Ok(_) => {},
    }
}

proof fn lemma_unnamed_type_links(decls: Seq<RawFieldView>, field: RawFieldView)
    requires
        all_named_types(decls),
        is_unnamed_type(field),
    ensures
        fails_only_for_a_missing_type(link_field(decls, field)),
{
    match field {
        RawFieldView::Unresolved(name, target, doc) => {
            lemma_reference_links(decls, name, target, doc);
        },
        _ => {},
    }
}

proof fn lemma_unnamed_types_link(decls: Seq<RawFieldView>, fields: Seq<RawFieldView>)
    requires
        all_named_types(decls),
        all_unnamed_types(fields),
    ensures
        fails_only_for_a_missing_type(link_all(decls, fields)),
    decreases fields.len(),
{
    if fields.len() > 0 {
        assert forall|i: int| 0 <= i < fields.drop_last().len() implies is_unnamed_type(
            #[trigger] fields.drop_last()[i],
        ) by {
            assert(fields.drop_last()[i] == fields[i]);
        }
        lemma_unnamed_types_link(decls, fields.drop_last());
        assert(is_unnamed_type(fields.last()));
        lemma_unnamed_type_links(decls, fields.last());
        lemma_last_decides(decls, fields);
    }
}

proof fn lemma_record_field_links(decls: Seq<RawFieldView>, field: RawFieldView)
    requires
        all_named_types(decls),
        is_record_field(field),
    ensures
        fails_only_for_a_missing_type(link_field(decls, field)),
{
    match field {
        RawFieldView::Unresolved(name, target, doc) => {
            lemma_reference_links(decls, name, target, doc);
        },
        RawFieldView::Union(_, types, _, _) => {
            lemma_unnamed_types_link(decls, types);
            lemma_children_decide(decls, field);
        },
        RawFieldView::Array(_, element, _, _) => {
            lemma_unnamed_type_links(decls, *element);
            lemma_children_decide(decls, field);
        },
        _ => {},
    }
}

proof fn lemma_record_fields_link(decls: Seq<RawFieldView>, fields: Seq<RawFieldView>)
    requires
        all_named_types(decls),
        all_record_fields(fields),
    ensures
        fails_only_for_a_missing_type(link_all(decls, fields)),
    decreases fields.len(),
{
    if fields.len() > 0 {
        assert forall|i: int| 0 <= i < fields.drop_last().len() implies is_record_field(
            #[trigger] fields.drop_last()[i],
        ) by {
            assert(fields.drop_last()[i] == fields[i]);
        }
        lemma_record_fields_link(decls, fields.drop_last());
        assert(is_record_field(fields.last()));
        lemma_record_field_links(decls, fields.last());
        lemma_last_decides(decls, fields);
    }
}

proof fn lemma_named_types_link(decls: Seq<RawFieldView>, fields: Seq<RawFieldView>)
    requires
        all_named_types(decls),
        all_named_types(fields),
    ensures
        fails_only_for_a_missing_type(link_all(decls, fields)),
    decreases fields.len(),
{
    if fields.len() > 0 {
        assert forall|i: int| 0 <= i < fields.drop_last().len() implies is_named_type(
            #[trigger] fields.drop_last()[i],
        ) by {
            assert(fields.drop_last()[i] == fields[i]);
        }
        lemma_named_types_link(decls, fields.drop_last());
        assert(is_named_type(fields.last()));
        match fields.last() {
            RawFieldView::Record(_, inner, _, _) => {
                lemma_record_fields_link(decls, inner);
                lemma_children_decide(decls, fields.last());
            },
            _ => {
                assert(link_field(decls, fields.last()) is Ok);
            },
        }
        lemma_last_decides(decls, fields);
    }
}

/// A complete protocol links, unless a reference in it names a type that it
/// does not declare: nothing else can be wrong with it.
pub proof fn lemma_complete_protocol_links(tree: RawFieldView)
    requires
        is_complete_protocol(tree),
    ensures
        fails_only_for_a_missing_type(link_protocol(tree)),
{
    let decls = tree->Protocol_1;
    lemma_named_types_link(decls, decls);
    match link_all(decls, decls) {
        Err(e) => {
            let target = choose|target: Seq<char>| e == undefined_reference(target);
            assert(link_protocol(tree)->Err_0 == undefined_reference(target));
        },
        Ok(_) => {},
    }
}

proof fn lemma_record_fields_render(fields: Seq<FieldView>)
    requires
        all_record_fields(unlink_all(fields)),
    ensures
        render_all(fields) is Ok,
    decreases fields.len(),
{
    if fields.len() > 0 {
        let raw = unlink_all(fields);
        assert(raw.drop_last() =~= unlink_all(fields.drop_last()));
        assert forall|i: int| 0 <= i < raw.drop_last().len() implies is_record_field(
            #[trigger] raw.drop_last()[i],
        ) by {
            assert(raw.drop_last()[i] == raw[i]);
        }
        lemma_record_fields_render(fields.drop_last());
        assert(raw.last() == unlink(fields.last()));
        assert(is_record_field(raw.last()));
        assert(render(fields.last()) is Ok);
    }
}

proof fn lemma_named_types_render(fields: Seq<FieldView>)
    requires
        all_named_types(unlink_all(fields)),
    ensures
        render_all(fields) is Ok,
    decreases fields.len(),
{
    if fields.len() > 0 {
        let raw = unlink_all(fields);
        assert(raw.drop_last() =~= unlink_all(fields.drop_last()));
        assert forall|i: int| 0 <= i < raw.drop_last().len() implies is_named_type(
            #[trigger] raw.drop_last()[i],
        ) by {
            assert(raw.drop_last()[i] == raw[i]);
        }
        lemma_named_types_render(fields.drop_last());
        assert(raw.last() == unlink(fields.last()));
        assert(is_named_type(raw.last()));
        match fields.last() {
            FieldView::Record(_, inner, _, _) => {
                lemma_record_fields_render(inner);
            },
            _ => {},
        }
        assert(render(fields.last()) is Ok);
    }
}

/// The counterpart of a complete protocol has a document.
pub proof fn lemma_linked_protocol_renders(linked: FieldView)
    requires
        is_complete_protocol(unlink(linked)),
    ensures
        render(linked) is Ok,
{
    match linked {
        FieldView::Protocol(_, declarations, _, _) => {
            lemma_named_types_render(declarations);
        },
        _ => {},
    }
}

/// From a complete protocol, as the lexer gives it, there is a document
/// unless a reference names a type that the protocol does not declare. No
/// import, no misplaced protocol, no missing name and no stray null type can
/// stand in the way.
pub proof fn lemma_complete_protocol_has_a_document(tree: RawFieldView, format: OutputFormat)
    requires
        is_complete_protocol(tree),
    ensures
        fails_only_for_a_missing_type(document_of(tree, format)),
{
    lemma_complete_protocol_links(tree);
    match link_protocol(tree) {
        Ok(linked) => {
            let decls = tree->Protocol_1;
            lemma_linking_keeps_the_list(decls, decls);
            assert(unlink(linked) == tree);
            lemma_linked_protocol_renders(linked);
        },
        Err(_) => {},
    }
}

} // verus!
