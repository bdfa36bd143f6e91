//! Linking: every placeholder of a reference becomes a reference to a record
//! or an enum that the protocol declares, or the whole tree is refused.

use crate::ast::{
    field_views, first_by_name, lemma_field_views, lemma_raw_views, position_by_name, raw_views,
    Field, FieldView, RawField, RawFieldView,
};
use crate::error::{AvroError, AvroErrorView};
use vstd::prelude::*;

verus! {

/// The failure for a tree whose root is no protocol.
pub open spec fn not_a_protocol() -> AvroErrorView {
    AvroErrorView::InvalidASTDataType("Expected a protocol"@)
}

/// The failure for a protocol that stands inside another node.
pub open spec fn nested_protocol() -> AvroErrorView {
    AvroErrorView::InvalidASTDataType("'Protocol' can only be declared once per file!"@)
}

/// The failure for an import that was not replaced by what it names.
pub open spec fn leftover_import() -> AvroErrorView {
    AvroErrorView::InvalidASTDataType(
        "'Import' should have been resolved previous to Linking!"@,
    )
}

/// The failure for a reference to something that is neither a record nor an
/// enum.
pub open spec fn invalid_target() -> AvroErrorView {
    AvroErrorView::InvalidASTDataType("Only Record and Enum are valid references!"@)
}

/// The failure for a reference to the name `target`, which nothing declares.
pub open spec fn undefined_reference(target: Seq<char>) -> AvroErrorView {
    AvroErrorView::UndefinedReference("Field of type '"@ + target + "' cannot be found!"@)
}

/// What a reference to `target` becomes, given the declarations of the
/// protocol: the first declaration of that name decides.
pub open spec fn resolve(
    decls: Seq<RawFieldView>,
    name: Option<Seq<char>>,
    target: Seq<char>,
    doc: Option<Seq<char>>,
) -> Result<FieldView, AvroErrorView> {
    match first_by_name(decls, target) {
        None => Err(undefined_reference(target)),
        Some(RawFieldView::Record(_, _, _, _)) => Ok(FieldView::RecordReference(name, target, doc)),
        Some(RawFieldView::Enum(_, _, default, _, _)) => Ok(
            FieldView::EnumReference(name, target, default, doc),
        ),
        Some(_) => Err(invalid_target()),
    }
}

/// The resolved counterpart of `field`, given the declarations of the
/// protocol, or the first failure met on the way through the tree.
pub open spec fn link_field(decls: Seq<RawFieldView>, field: RawFieldView) -> Result<
    FieldView,
    AvroErrorView,
>
    decreases field,
{
    match field {
        RawFieldView::Int(name, default, doc) => Ok(FieldView::Int(name, default, doc)),
        RawFieldView::Long(name, default, doc) => Ok(FieldView::Long(name, default, doc)),
        RawFieldView::Float(name, default, doc) => Ok(FieldView::Float(name, default, doc)),
        RawFieldView::Double(name, default, doc) => Ok(FieldView::Double(name, default, doc)),
        RawFieldView::Boolean(name, default, doc) => Ok(FieldView::Boolean(name, default, doc)),
        RawFieldView::String(name, default, doc) => Ok(FieldView::String(name, default, doc)),
        RawFieldView::Enum(name, symbols, default, namespace, doc) => Ok(
            FieldView::Enum(name, symbols, default, namespace, doc),
        ),
        RawFieldView::Record(name, fields, namespace, doc) => match link_all(decls, fields) {
            Ok(linked) => Ok(FieldView::Record(name, linked, namespace, doc)),
            Err(e) => Err(e),
        },
        RawFieldView::Union(name, members, default, doc) => match link_all(decls, members) {
            Ok(linked) => Ok(FieldView::Union(name, linked, default, doc)),
            Err(e) => Err(e),
        },
        RawFieldView::Array(name, element, default, doc) => match link_field(decls, *element) {
            Ok(linked) => Ok(FieldView::Array(name, Box::new(linked), default, doc)),
            Err(e) => Err(e),
        },
        RawFieldView::Null => Ok(FieldView::Null),
        RawFieldView::Unresolved(name, target, doc) => resolve(decls, name, target, doc),
        RawFieldView::Protocol(_, _, _, _) => Err(nested_protocol()),
        RawFieldView::Import(_) => Err(leftover_import()),
    }
}

/// The resolved counterparts of `fields`, in the same order, or the failure
/// of the first field that has one.
pub open spec fn link_all(decls: Seq<RawFieldView>, fields: Seq<RawFieldView>) -> Result<
    Seq<FieldView>,
    AvroErrorView,
>
    decreases fields,
{
    if fields.len() == 0 {
        Ok(Seq::empty())
    } else {
        match link_all(decls, fields.drop_last()) {
            Err(e) => Err(e),
            Ok(linked) => match link_field(decls, fields.last()) {
                Err(e) => Err(e),
                Ok(last) => Ok(linked.push(last)),
            },
        }
    }
}

/// The resolved counterpart of a whole tree. Its root has to be a protocol;
/// the declarations of that protocol are what references are looked up in.
pub open spec fn link_protocol(tree: RawFieldView) -> Result<FieldView, AvroErrorView> {
    match tree {
        RawFieldView::Protocol(name, decls, namespace, doc) => match link_all(decls, decls) {
            Ok(linked) => Ok(FieldView::Protocol(name, linked, namespace, doc)),
            Err(e) => Err(e),
        },
        _ => Err(not_a_protocol()),
    }
}

/// The model of what linking returns.
pub open spec fn linked_view(res: Result<Field, AvroError>) -> Result<FieldView, AvroErrorView> {
    match res {
        Ok(field) => Ok(field.deep_view()),
        Err(e) => Err(e.deep_view()),
    }
}

/// The model of what linking a list returns.
pub open spec fn linked_views(res: Result<Vec<Field>, AvroError>) -> Result<
    Seq<FieldView>,
    AvroErrorView,
> {
    match res {
        Ok(fields) => Ok(field_views(fields@)),
        Err(e) => Err(e.deep_view()),
    }
}

/// Resolves the references of a protocol.
pub struct LinkParser {}

impl LinkParser {
    /// A linker. It holds nothing: all that linking needs is in the tree.
    pub fn new() -> (res: Self)
        ensures
            res == (LinkParser {  }),
    {
        LinkParser {  }
    }

    /// Links a whole tree: `Ok` with the resolved protocol where every
    /// reference names a record or an enum among the protocol's declarations
    /// and nothing stands in the tree that has no resolved counterpart;
    /// otherwise the first failure, in the order of the tree. The resolved
    /// protocol is the tree that was given, node for node and in the same
    /// order, with references in place of the placeholders.
    pub fn parse(&self, protocol: RawField) -> (res: Result<Field, AvroError>)
        ensures
            linked_view(res) == link_protocol(protocol.deep_view()),
            res matches Ok(linked) ==> unlink(linked.deep_view()) == protocol.deep_view(),
    {
        proof {
            lemma_linking_twice_changes_nothing(protocol.deep_view());
        }
        match &protocol {
            RawField::Protocol(name, decls, namespace, doc) => {
                match self.parse_all(decls, decls) {
                    Ok(linked) => Ok(
                        Field::Protocol(name.clone(), linked, namespace.clone(), doc.clone()),
                    ),
                    Err(e) => Err(e),
                }
            },
            _ => Err(AvroError::InvalidASTDataType("Expected a protocol".to_owned())),
        }
    }

    fn parse_all(&self, decls: &Vec<RawField>, fields: &Vec<RawField>) -> (res: Result<
        Vec<Field>,
        AvroError,
    >)
        ensures
            linked_views(res) == link_all(raw_views(decls@), raw_views(fields@)),
        decreases fields,
    {
        let mut linked: Vec<Field> = Vec::new();
        let mut i: usize = 0;
        assert(fields@.take(0) =~= Seq::<RawField>::empty());
        while i < fields.len()
            invariant
                i <= fields.len(),
                link_all(raw_views(decls@), raw_views(fields@.take(i as int))) == Ok::<
                    Seq<FieldView>,
                    AvroErrorView,
                >(field_views(linked@)),
            decreases fields.len() - i,
        {
            let ghost before = fields@.take(i as int);
            let ghost longer = fields@.take(i + 1);
            proof {
                assert(longer.drop_last() =~= before);
                assert(longer.last() == fields@[i as int]);
                lemma_raw_views(longer);
                lemma_raw_views(before);
                lemma_raw_views(fields@);
                assert(raw_views(longer).drop_last() =~= raw_views(before));
                lemma_first_failure_stops(raw_views(decls@), raw_views(fields@), i + 1);
            }
            match self.parse_recurse(decls, &fields[i]) {
                Ok(field) => {
                    proof {
                        lemma_field_views(linked@.push(field));
                        lemma_field_views(linked@);
                        assert(field_views(linked@.push(field)) =~= field_views(linked@).push(
                            field.deep_view(),
                        ));
                    }
                    linked.push(field);
                },
                Err(e) => {
                    proof {
                        lemma_raw_views(fields@);
                        assert(raw_views(fields@).take(i + 1) =~= raw_views(longer));
                    }
                    return Err(e);
                },
            }
            i += 1;
        }
        assert(fields@.take(i as int) =~= fields@);
        Ok(linked)
    }

    fn parse_recurse(&self, decls: &Vec<RawField>, field: &RawField) -> (res: Result<
        Field,
        AvroError,
    >)
        ensures
            linked_view(res) == link_field(raw_views(decls@), field.deep_view()),
        decreases field,
    {
        match field {
            RawField::Int(name, default, doc) => Ok(
                Field::Int(name.clone(), default.clone(), doc.clone()),
            ),
            RawField::Long(name, default, doc) => Ok(
                Field::Long(name.clone(), default.clone(), doc.clone()),
            ),
            RawField::Float(name, default, doc) => Ok(
                Field::Float(name.clone(), default.clone(), doc.clone()),
            ),
            RawField::Double(name, default, doc) => Ok(
                Field::Double(name.clone(), default.clone(), doc.clone()),
            ),
            RawField::Boolean(name, default, doc) => Ok(
                Field::Boolean(name.clone(), default.clone(), doc.clone()),
            ),
            RawField::String(name, default, doc) => Ok(
                Field::String(name.clone(), default.clone(), doc.clone()),
            ),
            RawField::Enum(name, symbols, default, namespace, doc) => {
                let copied = symbols.clone();
                assert(copied.deep_view() =~= symbols.deep_view());
                Ok(
                    Field::Enum(
                        name.clone(),
                        copied,
                        default.clone(),
                        namespace.clone(),
                        doc.clone(),
                    ),
                )
            },
            RawField::Record(name, fields, namespace, doc) => {
                match self.parse_all(decls, fields) {
                    Ok(linked) => Ok(
                        Field::Record(name.clone(), linked, namespace.clone(), doc.clone()),
                    ),
                    Err(e) => Err(e),
                }
            },
            RawField::Unresolved(name, target, doc) => {
                match RawField::position_of(decls, target) {
                    None => {
                        let mut message = "Field of type '".to_owned();
                        message.append(target.as_str());
                        message.append("' cannot be found!");
                        Err(AvroError::UndefinedReference(message))
                    },
                    Some(at) => {
                        proof {
                            lemma_raw_views(decls@);
                        }
                        match &decls[at] {
                            RawField::Record(_, _, _, _) => Ok(
                                Field::RecordReference(name.clone(), target.clone(), doc.clone()),
                            ),
                            RawField::Enum(_, _, default, _, _) => Ok(
                                Field::EnumReference(
                                    name.clone(),
                                    target.clone(),
                                    default.clone(),
                                    doc.clone(),
                                ),
                            ),
                            _ => Err(
                                AvroError::InvalidASTDataType(
                                    "Only Record and Enum are valid references!".to_owned(),
                                ),
                            ),
                        }
                    },
                }
            },
            RawField::Union(name, members, default, doc) => {
                match self.parse_all(decls, members) {
                    Ok(linked) => Ok(
                        Field::Union(name.clone(), linked, default.clone(), doc.clone()),
                    ),
                    Err(e) => Err(e),
                }
            },
            RawField::Protocol(_, _, _, _) => Err(
                AvroError::InvalidASTDataType(
                    "'Protocol' can only be declared once per file!".to_owned(),
                ),
            ),
            RawField::Array(name, element, default, doc) => {
                match self.parse_recurse(decls, &**element) {
                    Ok(linked) => Ok(
                        Field::Array(name.clone(), Box::new(linked), default.clone(), doc.clone()),
                    ),
                    Err(e) => Err(e),
                }
            },
            RawField::Import(_) => Err(
                AvroError::InvalidASTDataType(
                    "'Import' should have been resolved previous to Linking!".to_owned(),
                ),
            ),
            RawField::Null => Ok(Field::Null),
        }
    }
}

/// Where linking the first `n` fields fails, linking all of them fails in the
/// same way.
pub proof fn lemma_first_failure_stops(
    decls: Seq<RawFieldView>,
    fields: Seq<RawFieldView>,
    n: int,
)
    requires
        0 <= n <= fields.len(),
    ensures
        link_all(decls, fields.take(n)) is Err ==> link_all(decls, fields) == link_all(
            decls,
            fields.take(n),
        ),
    decreases fields.len() - n,
{
    if n < fields.len() {
        assert(fields.drop_last().take(n) =~= fields.take(n));
        lemma_first_failure_stops(decls, fields.drop_last(), n);
    } else {
        assert(fields.take(n) =~= fields);
    }
}

/// The raw tree that `field` came from: a reference is a placeholder again,
/// everything else stays.
pub open spec fn unlink(field: FieldView) -> RawFieldView
    decreases field,
{
    match field {
        FieldView::Protocol(name, decls, namespace, doc) => RawFieldView::Protocol(
            name,
            unlink_all(decls),
            namespace,
            doc,
        ),
        FieldView::Int(name, default, doc) => RawFieldView::Int(name, default, doc),
        FieldView::Long(name, default, doc) => RawFieldView::Long(name, default, doc),
        FieldView::Float(name, default, doc) => RawFieldView::Float(name, default, doc),
        FieldView::Double(name, default, doc) => RawFieldView::Double(name, default, doc),
        FieldView::Boolean(name, default, doc) => RawFieldView::Boolean(name, default, doc),
        FieldView::String(name, default, doc) => RawFieldView::String(name, default, doc),
        FieldView::Enum(name, symbols, default, namespace, doc) => RawFieldView::Enum(
            name,
            symbols,
            default,
            namespace,
            doc,
        ),
        FieldView::Record(name, fields, namespace, doc) => RawFieldView::Record(
            name,
            unlink_all(fields),
            namespace,
            doc,
        ),
        FieldView::Union(name, members, default, doc) => RawFieldView::Union(
            name,
            unlink_all(members),
            default,
            doc,
        ),
        FieldView::Array(name, element, default, doc) => RawFieldView::Array(
            name,
            Box::new(unlink(*element)),
            default,
            doc,
        ),
        FieldView::RecordReference(name, target, doc) => RawFieldView::Unresolved(
            name,
            target,
            doc,
        ),
        FieldView::EnumReference(name, target, _, doc) => RawFieldView::Unresolved(
            name,
            target,
            doc,
        ),
        FieldView::Null => RawFieldView::Null,
    }
}

/// The raw trees that `fields` came from, in the same order.
pub open spec fn unlink_all(fields: Seq<FieldView>) -> Seq<RawFieldView>
    decreases fields,
{
    if fields.len() == 0 {
        Seq::empty()
    } else {
        unlink_all(fields.drop_last()).push(unlink(fields.last()))
    }
}

/// True when linking has nothing to do in `field`: it holds no placeholder
/// of a reference, no import and no protocol.
pub open spec fn is_plain(field: RawFieldView) -> bool
    decreases field,
{
    match field {
        RawFieldView::Record(_, fields, _, _) => all_plain(fields),
        RawFieldView::Union(_, members, _, _) => all_plain(members),
        RawFieldView::Array(_, element, _, _) => is_plain(*element),
        RawFieldView::Unresolved(_, _, _) => false,
        RawFieldView::Protocol(_, _, _, _) => false,
        RawFieldView::Import(_) => false,
        _ => true,
    }
}

/// True when every one of `fields` is plain.
pub open spec fn all_plain(fields: Seq<RawFieldView>) -> bool
    decreases fields,
{
    fields.len() == 0 || (all_plain(fields.drop_last()) && is_plain(fields.last()))
}

/// True when `field` can be linked against `decls`: every reference in it
/// names a record or an enum among `decls`, and it holds no import and no
/// protocol.
pub open spec fn is_linkable(decls: Seq<RawFieldView>, field: RawFieldView) -> bool
    decreases field,
{
    match field {
        RawFieldView::Record(_, fields, _, _) => all_linkable(decls, fields),
        RawFieldView::Union(_, members, _, _) => all_linkable(decls, members),
        RawFieldView::Array(_, element, _, _) => is_linkable(decls, *element),
        RawFieldView::Unresolved(_, target, _) => match first_by_name(decls, target) {
            Some(found) => found is Record || found is Enum,
            None => false,
        },
        RawFieldView::Protocol(_, _, _, _) => false,
        RawFieldView::Import(_) => false,
        _ => true,
    }
}

/// True when every one of `fields` can be linked against `decls`.
pub open spec fn all_linkable(decls: Seq<RawFieldView>, fields: Seq<RawFieldView>) -> bool
    decreases fields,
{
    fields.len() == 0 || (all_linkable(decls, fields.drop_last()) && is_linkable(
        decls,
        fields.last(),
    ))
}

/// Linking changes nothing but the references. Whatever tree links, the
/// result has the same nodes in the same order, and turning its references
/// back into placeholders gives the tree that was linked.
pub proof fn lemma_linking_keeps_the_tree(decls: Seq<RawFieldView>, field: RawFieldView)
    ensures
        link_field(decls, field) matches Ok(linked) ==> unlink(linked) == field,
    decreases field, 0nat,
{
    match field {
        RawFieldView::Record(_, fields, _, _) => {
            lemma_linking_keeps_the_list(decls, fields);
        },
        RawFieldView::Union(_, members, _, _) => {
            lemma_linking_keeps_the_list(decls, members);
        },
        RawFieldView::Array(_, element, _, _) => {
            lemma_linking_keeps_the_tree(decls, *element);
        },
        _ => {},
    }
}

/// Linking a list gives as many nodes as it was given, each the counterpart
/// of the node at its place.
pub proof fn lemma_linking_keeps_the_list(decls: Seq<RawFieldView>, fields: Seq<RawFieldView>)
    ensures
        link_all(decls, fields) matches Ok(linked) ==> unlink_all(linked) == fields
            && linked.len() == fields.len(),
    decreases fields, 1nat,
{
    if fields.len() > 0 {
        lemma_linking_keeps_the_list(decls, fields.drop_last());
        lemma_linking_keeps_the_tree(decls, fields.last());
        match link_all(decls, fields) {
            Ok(linked) => {
                let before = link_all(decls, fields.drop_last())->Ok_0;
                let last = link_field(decls, fields.last())->Ok_0;
                assert(linked == before.push(last));
                assert(linked.drop_last() =~= before);
                assert(unlink_all(linked) =~= fields);
            },
            Err(_) => {},
        }
    }
}

/// Linking succeeds on exactly the trees that can be linked: a reference to
/// a name that is not declared, or that is declared as something else than a
/// record or an enum, an import, and a protocol inside the tree each make it
/// fail, wherever they stand.
pub proof fn lemma_links_iff_linkable(decls: Seq<RawFieldView>, field: RawFieldView)
    ensures
        link_field(decls, field) is Ok <==> is_linkable(decls, field),
    decreases field, 0nat,
{
    match field {
        RawFieldView::Record(_, fields, _, _) => {
            lemma_list_links_iff_linkable(decls, fields);
        },
        RawFieldView::Union(_, members, _, _) => {
            lemma_list_links_iff_linkable(decls, members);
        },
        RawFieldView::Array(_, element, _, _) => {
            lemma_links_iff_linkable(decls, *element);
        },
        _ => {},
    }
}

/// A list links exactly when every node in it can be linked.
pub proof fn lemma_list_links_iff_linkable(decls: Seq<RawFieldView>, fields: Seq<RawFieldView>)
    ensures
        link_all(decls, fields) is Ok <==> all_linkable(decls, fields),
    decreases fields, 1nat,
{
    if fields.len() > 0 {
        lemma_list_links_iff_linkable(decls, fields.drop_last());
        lemma_links_iff_linkable(decls, fields.last());
    }
}

/// A plain tree can be linked, whatever the protocol declares.
pub proof fn lemma_plain_is_linkable(decls: Seq<RawFieldView>, field: RawFieldView)
    requires
        is_plain(field),
    ensures
        is_linkable(decls, field),
    decreases field, 0nat,
{
    match field {
        RawFieldView::Record(_, fields, _, _) => {
            lemma_all_plain_are_linkable(decls, fields);
        },
        RawFieldView::Union(_, members, _, _) => {
            lemma_all_plain_are_linkable(decls, members);
        },
        RawFieldView::Array(_, element, _, _) => {
            lemma_plain_is_linkable(decls, *element);
        },
        _ => {},
    }
}

/// Plain trees can all be linked, whatever the protocol declares.
pub proof fn lemma_all_plain_are_linkable(decls: Seq<RawFieldView>, fields: Seq<RawFieldView>)
    requires
        all_plain(fields),
    ensures
        all_linkable(decls, fields),
    decreases fields, 1nat,
{
    if fields.len() > 0 {
        lemma_all_plain_are_linkable(decls, fields.drop_last());
        lemma_plain_is_linkable(decls, fields.last());
    }
}

/// Linking a protocol in which nothing is left to resolve is a pass through:
/// it succeeds, and the result is the same tree, node for node.
pub proof fn lemma_relinking_changes_nothing(tree: RawFieldView)
    requires
        tree matches RawFieldView::Protocol(_, decls, _, _) && all_plain(decls),
    ensures
        link_protocol(tree) matches Ok(linked) && unlink(linked) == tree,
{
    let decls = tree->Protocol_1;
    lemma_all_plain_are_linkable(decls, decls);
    lemma_list_links_iff_linkable(decls, decls);
    lemma_linking_keeps_the_list(decls, decls);
}

/// Linking what was linked gives the same again: with its references turned
/// back into placeholders, a linked protocol links to itself.
pub proof fn lemma_linking_twice_changes_nothing(tree: RawFieldView)
    ensures
        link_protocol(tree) matches Ok(linked) ==> unlink(linked) == tree && link_protocol(
            unlink(linked),
        ) == link_protocol(tree),
{
    match tree {
        RawFieldView::Protocol(_, decls, _, _) => {
            lemma_linking_keeps_the_list(decls, decls);
        },
        _ => {},
    }
}

/// A reference to a declared record becomes a reference to that record. The
/// first declaration of the name decides.
pub proof fn lemma_reference_to_record(
    decls: Seq<RawFieldView>,
    at: int,
    name: Option<Seq<char>>,
    target: Seq<char>,
    doc: Option<Seq<char>>,
)
    requires
        0 <= at < decls.len(),
        decls[at] is Record,
        decls[at].name() == Some(target),
        forall|i: int| 0 <= i < at ==> (#[trigger] decls[i]).name() != Some(target),
    ensures
        link_field(decls, RawFieldView::Unresolved(name, target, doc)) == Ok::<
            FieldView,
            AvroErrorView,
        >(FieldView::RecordReference(name, target, doc)),
{
    lemma_first_declaration(decls, target, at, 0);
}

/// A reference to a declared enum becomes a reference to that enum, and it
/// carries the default that the enum declares.
pub proof fn lemma_reference_to_enum(
    decls: Seq<RawFieldView>,
    at: int,
    name: Option<Seq<char>>,
    target: Seq<char>,
    doc: Option<Seq<char>>,
)
    requires
        0 <= at < decls.len(),
        decls[at] is Enum,
        decls[at].name() == Some(target),
        forall|i: int| 0 <= i < at ==> (#[trigger] decls[i]).name() != Some(target),
    ensures
        link_field(decls, RawFieldView::Unresolved(name, target, doc)) == Ok::<
            FieldView,
            AvroErrorView,
        >(FieldView::EnumReference(name, target, decls[at]->Enum_2, doc)),
{
    lemma_first_declaration(decls, target, at, 0);
}

/// A reference to a name that no declaration has fails, and the failure
/// names what was looked for.
pub proof fn lemma_reference_to_nothing(
    decls: Seq<RawFieldView>,
    name: Option<Seq<char>>,
    target: Seq<char>,
    doc: Option<Seq<char>>,
)
    requires
        forall|i: int| 0 <= i < decls.len() ==> (#[trigger] decls[i]).name() != Some(target),
    ensures
        link_field(decls, RawFieldView::Unresolved(name, target, doc)) == Err::<
            FieldView,
            AvroErrorView,
        >(undefined_reference(target)),
{
    crate::ast::lemma_position_by_name(decls, target, 0);
}

/// Searching from `from` finds `at`, where `at` is the first place at or
/// after `from` that holds the name.
proof fn lemma_first_declaration(decls: Seq<RawFieldView>, target: Seq<char>, at: int, from: int)
    requires
        0 <= from <= at < decls.len(),
        decls[at].name() == Some(target),
        forall|i: int| from <= i < at ==> (#[trigger] decls[i]).name() != Some(target),
    ensures
        position_by_name(decls, target, from) == Some(at),
    decreases at - from,
{
    if from < at {
        lemma_first_declaration(decls, target, at, from + 1);
    }
}

/// An import that is still in the tree makes linking fail, and so does a
/// protocol inside the tree. Among the fields of a record, the members of a
/// union or the declarations of a protocol, the first node that fails gives
/// the failure of the whole.
pub proof fn lemma_failure_reaches_the_root(
    decls: Seq<RawFieldView>,
    fields: Seq<RawFieldView>,
    at: int,
)
    requires
        0 <= at < fields.len(),
        link_field(decls, fields[at]) is Err,
        forall|i: int| 0 <= i < at ==> link_field(decls, #[trigger] fields[i]) is Ok,
    ensures
        link_all(decls, fields) == Err::<Seq<FieldView>, AvroErrorView>(
            link_field(decls, fields[at])->Err_0,
        ),
        forall|path: Seq<char>|
            fields[at] == RawFieldView::Import(path) ==> link_all(decls, fields) == Err::<
                Seq<FieldView>,
                AvroErrorView,
            >(leftover_import()),
        fields[at] is Protocol ==> link_all(decls, fields) == Err::<
            Seq<FieldView>,
            AvroErrorView,
        >(nested_protocol()),
{
    let upto = fields.take(at + 1);
    assert(upto.drop_last() =~= fields.take(at));
    assert(upto.last() == fields[at]);
    lemma_prefix_links(decls, fields, at);
    lemma_first_failure_stops(decls, fields, at + 1);
}

/// Where each of the first `n` fields links, the first `n` fields link.
proof fn lemma_prefix_links(decls: Seq<RawFieldView>, fields: Seq<RawFieldView>, n: int)
    requires
        0 <= n <= fields.len(),
        forall|i: int| 0 <= i < n ==> link_field(decls, #[trigger] fields[i]) is Ok,
    ensures
        link_all(decls, fields.take(n)) is Ok,
    decreases n,
{
    if n > 0 {
        lemma_prefix_links(decls, fields, n - 1);
        assert(fields.take(n).drop_last() =~= fields.take(n - 1));
        assert(fields.take(n).last() == fields[n - 1]);
    }
}

} // verus!
