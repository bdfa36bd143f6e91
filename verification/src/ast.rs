//! Schema trees: the raw tree that the grammar produces, the resolved tree that
//! linking produces, and the mathematical models that the contracts speak of.
//!
//! Every executable type has a model in which text is a `Seq<char>` and a list
//! is a `Seq`; `deep_view` maps a value to its model.

use crate::scan::{decimal_end, lemma_run_end, lemma_run_end_is, run_end, CharClass, Source};
use vstd::prelude::*;

verus! {

/// The default of a field: a value, an explicit null, or nothing at all.
#[derive(Debug, PartialEq)]
pub enum HasDefault<T> {
    /// A default was given, and it is this value.
    DefaultValue(T),
    /// A default was given, and it is null.
    DefaultNull,
    /// No default was given.
    NoDefault,
}

impl<T: DeepView> DeepView for HasDefault<T> {
    type V = HasDefault<T::V>;

    open spec fn deep_view(&self) -> HasDefault<T::V> {
        match self {
            HasDefault::DefaultValue(v) => HasDefault::DefaultValue(v.deep_view()),
            HasDefault::DefaultNull => HasDefault::DefaultNull,
            HasDefault::NoDefault => HasDefault::NoDefault,
        }
    }
}

impl<T: Clone> Clone for HasDefault<T> {
    fn clone(&self) -> (res: Self)
        ensures
            match (*self, res) {
                (HasDefault::DefaultValue(a), HasDefault::DefaultValue(b)) => cloned::<T>(a, b),
                (HasDefault::DefaultNull, HasDefault::DefaultNull) => true,
                (HasDefault::NoDefault, HasDefault::NoDefault) => true,
                _ => false,
            },
    {
        match self {
            HasDefault::DefaultValue(v) => HasDefault::DefaultValue(v.clone()),
            HasDefault::DefaultNull => HasDefault::DefaultNull,
            HasDefault::NoDefault => HasDefault::NoDefault,
        }
    }
}

impl<T> HasDefault<T> {
    /// Applies `mapping` to the value, if there is one; the two other states
    /// carry over unchanged.
    pub fn map<U, F: FnOnce(T) -> U>(self, mapping: F) -> (res: HasDefault<U>)
        requires
            self is DefaultValue ==> mapping.requires((self->DefaultValue_0,)),
        ensures
            match self {
                HasDefault::DefaultValue(v) => res is DefaultValue && mapping.ensures(
                    (v,),
                    res->DefaultValue_0,
                ),
                HasDefault::DefaultNull => res is DefaultNull,
                HasDefault::NoDefault => res is NoDefault,
            },
    {
        match self {
            HasDefault::DefaultValue(value) => HasDefault::DefaultValue(mapping(value)),
            HasDefault::DefaultNull => HasDefault::DefaultNull,
            HasDefault::NoDefault => HasDefault::NoDefault,
        }
    }
}

/// True when `s` is the text of a decimal number and nothing else: an optional
/// minus sign, a whole part without superfluous zeros, a point, and at least
/// one digit behind it.
pub open spec fn is_decimal_text(s: Seq<char>) -> bool {
    decimal_end(s, 0) == Some(s.len() as int)
}

/// A decimal number that ends at `to` in a text is, taken out of it, the text
/// of a decimal number.
pub proof fn lemma_decimal_part(s: Seq<char>, from: int, to: int)
    requires
        0 <= from <= s.len(),
        decimal_end(s, from) == Some(to),
    ensures
        from < to <= s.len(),
        is_decimal_text(s.subrange(from, to)),
{
    let start = if s[from] == '-' {
        from + 1
    } else {
        from
    };
    let point = if s[start] == '0' {
        start + 1
    } else {
        run_end(s, start + 1, CharClass::Digit)
    };
    lemma_run_end(s, start + 1, CharClass::Digit);
    lemma_run_end(s, point + 2, CharClass::Digit);
    let part = s.subrange(from, to);
    assert forall|i: int| 0 <= i < part.len() implies #[trigger] part[i] == s[from + i] by {}
    if s[start] != '0' {
        assert forall|i: int| start - from + 1 <= i < point - from implies CharClass::Digit.holds(
            #[trigger] part[i],
        ) by {
            assert(CharClass::Digit.holds(s[from + i]));
        }
        lemma_run_end_is(part, start - from + 1, point - from, CharClass::Digit);
    }
    assert forall|i: int| point - from + 2 <= i < to - from implies CharClass::Digit.holds(
        #[trigger] part[i],
    ) by {
        assert(CharClass::Digit.holds(s[from + i]));
    }
    lemma_run_end_is(part, point - from + 2, to - from, CharClass::Digit);
}

/// A decimal number kept as the text in which it was written, such as `-0.21`.
///
/// Binary floating point is left to the caller: the text is what the schema
/// said, and converting it is a matter of the output format.
#[derive(Debug, PartialEq)]
pub struct Decimal {
    text: String,
}

impl DeepView for Decimal {
    type V = Seq<char>;

    closed spec fn deep_view(&self) -> Seq<char> {
        self.text@
    }
}

impl View for Decimal {
    type V = Seq<char>;

    open spec fn view(&self) -> Seq<char> {
        self.deep_view()
    }
}

impl Clone for Decimal {
    fn clone(&self) -> (res: Self)
        ensures
            res == *self,
    {
        proof {
            use_type_invariant(self);
        }
        Decimal { text: self.text.clone() }
    }
}

impl Decimal {
    #[verifier::type_invariant]
    spec fn well_formed(self) -> bool {
        is_decimal_text(self.text@)
    }

    /// The number that `text` writes, if `text` is a decimal number.
    pub fn new(text: &str) -> (res: Option<Decimal>)
        ensures
            match res {
                Some(d) => d@ == text@ && is_decimal_text(text@),
                None => !is_decimal_text(text@),
            },
    {
        let source = Source::new(text.to_owned());
        match source.decimal(0) {
            Some(end) => if end == source.len() {
                Some(Decimal { text: text.to_owned() })
            } else {
                None
            },
            None => None,
        }
    }

    /// The decimal number that stands from `from` up to `to` in `source`.
    pub fn from_source(source: &Source, from: usize, to: usize) -> (res: Decimal)
        requires
            from <= source@.len(),
            decimal_end(source@, from as int) == Some(to as int),
        ensures
            res@ == source@.subrange(from as int, to as int),
    {
        proof {
            lemma_decimal_part(source@, from as int, to as int);
        }
        Decimal { text: source.slice(from, to) }
    }

    /// The text of the number.
    pub fn as_str(&self) -> (res: &str)
        ensures
            res@ == self@,
            is_decimal_text(res@),
    {
        proof {
            use_type_invariant(self);
        }
        self.text.as_str()
    }
}

/// A scalar value, as it stands behind `=` on a union or an array.
#[derive(Debug, PartialEq)]
pub enum Literal {
    Int(i32),
    Long(i64),
    Float(Decimal),
    Double(Decimal),
    Boolean(bool),
    String(String),
    Null,
}

/// The model of a [`Literal`].
pub enum LiteralView {
    Int(i32),
    Long(i64),
    Float(Seq<char>),
    Double(Seq<char>),
    Boolean(bool),
    String(Seq<char>),
    Null,
}

impl DeepView for Literal {
    type V = LiteralView;

    open spec fn deep_view(&self) -> LiteralView {
        match self {
            Literal::Int(v) => LiteralView::Int(*v),
            Literal::Long(v) => LiteralView::Long(*v),
            Literal::Float(v) => LiteralView::Float(v@),
            Literal::Double(v) => LiteralView::Double(v@),
            Literal::Boolean(v) => LiteralView::Boolean(*v),
            Literal::String(v) => LiteralView::String(v@),
            Literal::Null => LiteralView::Null,
        }
    }
}

impl Clone for Literal {
    fn clone(&self) -> (res: Self)
        ensures
            res == *self,
    {
        match self {
            Literal::Int(v) => Literal::Int(*v),
            Literal::Long(v) => Literal::Long(*v),
            Literal::Float(v) => Literal::Float(v.clone()),
            Literal::Double(v) => Literal::Double(v.clone()),
            Literal::Boolean(v) => Literal::Boolean(*v),
            Literal::String(v) => Literal::String(v.clone()),
            Literal::Null => Literal::Null,
        }
    }
}

/// The tree that the grammar produces. References to named types are still
/// placeholders, and imports are still in place.
#[derive(Debug, PartialEq)]
pub enum RawField {
    /// Name, declarations, namespace, docstring
    Protocol(Option<String>, Vec<RawField>, Option<String>, Option<String>),
    /// Name, default, docstring
    Int(Option<String>, HasDefault<i32>, Option<String>),
    /// Name, default, docstring
    Long(Option<String>, HasDefault<i64>, Option<String>),
    /// Name, default, docstring
    Float(Option<String>, HasDefault<Decimal>, Option<String>),
    /// Name, default, docstring
    Double(Option<String>, HasDefault<Decimal>, Option<String>),
    /// Name, default, docstring
    Boolean(Option<String>, HasDefault<bool>, Option<String>),
    /// Name, default, docstring
    String(Option<String>, HasDefault<String>, Option<String>),
    /// Name, symbols, default, namespace, docstring
    Enum(Option<String>, Vec<String>, HasDefault<String>, Option<String>, Option<String>),
    /// Name, fields, namespace, docstring
    Record(Option<String>, Vec<RawField>, Option<String>, Option<String>),
    /// Name, member types, default, docstring
    Union(Option<String>, Vec<RawField>, HasDefault<Literal>, Option<String>),
    /// Name, element type, default, docstring
    Array(Option<String>, Box<RawField>, HasDefault<Literal>, Option<String>),
    /// The null type, as a member of a union
    Null,
    /// Name, name of the type referred to, docstring
    Unresolved(Option<String>, String, Option<String>),
    /// Path of the file to include
    Import(String),
}

/// The model of a [`RawField`].
pub enum RawFieldView {
    Protocol(Option<Seq<char>>, Seq<RawFieldView>, Option<Seq<char>>, Option<Seq<char>>),
    Int(Option<Seq<char>>, HasDefault<i32>, Option<Seq<char>>),
    Long(Option<Seq<char>>, HasDefault<i64>, Option<Seq<char>>),
    Float(Option<Seq<char>>, HasDefault<Seq<char>>, Option<Seq<char>>),
    Double(Option<Seq<char>>, HasDefault<Seq<char>>, Option<Seq<char>>),
    Boolean(Option<Seq<char>>, HasDefault<bool>, Option<Seq<char>>),
    String(Option<Seq<char>>, HasDefault<Seq<char>>, Option<Seq<char>>),
    Enum(
        Option<Seq<char>>,
        Seq<Seq<char>>,
        HasDefault<Seq<char>>,
        Option<Seq<char>>,
        Option<Seq<char>>,
    ),
    Record(Option<Seq<char>>, Seq<RawFieldView>, Option<Seq<char>>, Option<Seq<char>>),
    Union(Option<Seq<char>>, Seq<RawFieldView>, HasDefault<LiteralView>, Option<Seq<char>>),
    Array(Option<Seq<char>>, Box<RawFieldView>, HasDefault<LiteralView>, Option<Seq<char>>),
    Null,
    Unresolved(Option<Seq<char>>, Seq<char>, Option<Seq<char>>),
    Import(Seq<char>),
}

/// The models of the fields in `fields`, in the same order.
pub open spec fn raw_views(fields: Seq<RawField>) -> Seq<RawFieldView>
    decreases fields,
{
    if fields.len() == 0 {
        Seq::empty()
    } else {
        raw_views(fields.drop_last()).push(fields.last().model())
    }
}

/// The model of a list has the length of the list, and holds at each place
/// the model of the field at that place.
pub proof fn lemma_raw_views(fields: Seq<RawField>)
    ensures
        raw_views(fields).len() == fields.len(),
        forall|i: int|
            0 <= i < fields.len() ==> (#[trigger] raw_views(fields)[i]) == fields[i].deep_view(),
    decreases fields.len(),
{
    if fields.len() > 0 {
        lemma_raw_views(fields.drop_last());
    }
}

impl RawField {
    /// The model of the tree.
    pub open spec fn model(&self) -> RawFieldView
        decreases self,
    {
        match self {
            RawField::Protocol(name, fields, namespace, doc) => RawFieldView::Protocol(
                name.deep_view(),
                raw_views(fields@),
                namespace.deep_view(),
                doc.deep_view(),
            ),
            RawField::Int(name, default, doc) => RawFieldView::Int(
                name.deep_view(),
                default.deep_view(),
                doc.deep_view(),
            ),
            RawField::Long(name, default, doc) => RawFieldView::Long(
                name.deep_view(),
                default.deep_view(),
                doc.deep_view(),
            ),
            RawField::Float(name, default, doc) => RawFieldView::Float(
                name.deep_view(),
                default.deep_view(),
                doc.deep_view(),
            ),
            RawField::Double(name, default, doc) => RawFieldView::Double(
                name.deep_view(),
                default.deep_view(),
                doc.deep_view(),
            ),
            RawField::Boolean(name, default, doc) => RawFieldView::Boolean(
                name.deep_view(),
                default.deep_view(),
                doc.deep_view(),
            ),
            RawField::String(name, default, doc) => RawFieldView::String(
                name.deep_view(),
                default.deep_view(),
                doc.deep_view(),
            ),
            RawField::Enum(name, symbols, default, namespace, doc) => RawFieldView::Enum(
                name.deep_view(),
                symbols.deep_view(),
                default.deep_view(),
                namespace.deep_view(),
                doc.deep_view(),
            ),
            RawField::Record(name, fields, namespace, doc) => RawFieldView::Record(
                name.deep_view(),
                raw_views(fields@),
                namespace.deep_view(),
                doc.deep_view(),
            ),
            RawField::Union(name, members, default, doc) => RawFieldView::Union(
                name.deep_view(),
                raw_views(members@),
                default.deep_view(),
                doc.deep_view(),
            ),
            RawField::Array(name, element, default, doc) => RawFieldView::Array(
                name.deep_view(),
                Box::new((**element).model()),
                default.deep_view(),
                doc.deep_view(),
            ),
            RawField::Null => RawFieldView::Null,
            RawField::Unresolved(name, target, doc) => RawFieldView::Unresolved(
                name.deep_view(),
                target@,
                doc.deep_view(),
            ),
            RawField::Import(path) => RawFieldView::Import(path@),
        }
    }
}

impl DeepView for RawField {
    type V = RawFieldView;

    open spec fn deep_view(&self) -> RawFieldView {
        self.model()
    }
}

impl RawFieldView {
    /// The name of the node, if its kind has one and it was given.
    pub open spec fn name(self) -> Option<Seq<char>> {
        match self {
            RawFieldView::Protocol(name, _, _, _) => name,
            RawFieldView::Int(name, _, _) => name,
            RawFieldView::Long(name, _, _) => name,
            RawFieldView::Float(name, _, _) => name,
            RawFieldView::Double(name, _, _) => name,
            RawFieldView::Boolean(name, _, _) => name,
            RawFieldView::String(name, _, _) => name,
            RawFieldView::Enum(name, _, _, _, _) => name,
            RawFieldView::Record(name, _, _, _) => name,
            RawFieldView::Union(name, _, _, _) => name,
            RawFieldView::Array(name, _, _, _) => name,
            RawFieldView::Null => None,
            RawFieldView::Unresolved(name, _, _) => name,
            RawFieldView::Import(_) => None,
        }
    }

    /// A primitive or an enum without its default and its docstring; any
    /// other node as it is.
    pub open spec fn remove_default(self) -> RawFieldView {
        match self {
            RawFieldView::Int(name, _, _) => RawFieldView::Int(name, HasDefault::NoDefault, None),
            RawFieldView::Long(name, _, _) => RawFieldView::Long(
                name,
                HasDefault::NoDefault,
                None,
            ),
            RawFieldView::Float(name, _, _) => RawFieldView::Float(
                name,
                HasDefault::NoDefault,
                None,
            ),
            RawFieldView::Double(name, _, _) => RawFieldView::Double(
                name,
                HasDefault::NoDefault,
                None,
            ),
            RawFieldView::Boolean(name, _, _) => RawFieldView::Boolean(
                name,
                HasDefault::NoDefault,
                None,
            ),
            RawFieldView::String(name, _, _) => RawFieldView::String(
                name,
                HasDefault::NoDefault,
                None,
            ),
            RawFieldView::Enum(name, symbols, _, namespace, _) => RawFieldView::Enum(
                name,
                symbols,
                HasDefault::NoDefault,
                namespace,
                None,
            ),
            _ => self,
        }
    }
}

/// The position of the first node in `fields`, at or after `from`, whose name
/// is `name`.
pub open spec fn position_by_name(fields: Seq<RawFieldView>, name: Seq<char>, from: int) -> Option<
    int,
>
    decreases fields.len() - from,
{
    if from < 0 || from >= fields.len() {
        None
    } else if fields[from].name() == Some(name) {
        Some(from)
    } else {
        position_by_name(fields, name, from + 1)
    }
}

/// The first node in `fields` whose name is `name`.
pub open spec fn first_by_name(fields: Seq<RawFieldView>, name: Seq<char>) -> Option<
    RawFieldView,
> {
    match position_by_name(fields, name, 0) {
        Some(at) => Some(fields[at]),
        None => None,
    }
}

/// `position_by_name` finds a node with the name, and none stands before it;
/// it finds nothing only where no node has the name.
pub proof fn lemma_position_by_name(fields: Seq<RawFieldView>, name: Seq<char>, from: int)
    requires
        0 <= from <= fields.len(),
    ensures
        match position_by_name(fields, name, from) {
            Some(at) => from <= at < fields.len() && fields[at].name() == Some(name)
                && forall|i: int| from <= i < at ==> (#[trigger] fields[i]).name() != Some(name),
            None => forall|i: int|
                from <= i < fields.len() ==> (#[trigger] fields[i]).name() != Some(name),
        },
    decreases fields.len() - from,
{
    if from < fields.len() && fields[from].name() != Some(name) {
        lemma_position_by_name(fields, name, from + 1);
    }
}

impl RawField {
    /// Whether the node itself is something for linking to resolve: true
    /// exactly for the placeholder of a reference.
    pub fn is_resolved(&self) -> (res: bool)
        ensures
            res == (self.deep_view() is Unresolved),
    {
        match self {
            RawField::Unresolved(_, _, _) => true,
            _ => false,
        }
    }

    /// The name of the node, if its kind has one and it was given.
    pub fn name(&self) -> (res: Option<String>)
        ensures
            res.deep_view() == self.deep_view().name(),
    {
        match self {
            RawField::Protocol(name, _, _, _) => name.clone(),
            RawField::Int(name, _, _) => name.clone(),
            RawField::Long(name, _, _) => name.clone(),
            RawField::Float(name, _, _) => name.clone(),
            RawField::Double(name, _, _) => name.clone(),
            RawField::Boolean(name, _, _) => name.clone(),
            RawField::String(name, _, _) => name.clone(),
            RawField::Record(name, _, _, _) => name.clone(),
            RawField::Enum(name, _, _, _, _) => name.clone(),
            RawField::Unresolved(name, _, _) => name.clone(),
            RawField::Union(name, _, _, _) => name.clone(),
            RawField::Array(name, _, _, _) => name.clone(),
            RawField::Null => None,
            RawField::Import(_) => None,
        }
    }

    /// Whether the node has the name `name`.
    pub fn has_name(&self, name: &String) -> (res: bool)
        ensures
            res == (self.deep_view().name() == Some(name@)),
    {
        let own = match self {
            RawField::Protocol(name, _, _, _) => name,
            RawField::Int(name, _, _) => name,
            RawField::Long(name, _, _) => name,
            RawField::Float(name, _, _) => name,
            RawField::Double(name, _, _) => name,
            RawField::Boolean(name, _, _) => name,
            RawField::String(name, _, _) => name,
            RawField::Record(name, _, _, _) => name,
            RawField::Enum(name, _, _, _, _) => name,
            RawField::Unresolved(name, _, _) => name,
            RawField::Union(name, _, _, _) => name,
            RawField::Array(name, _, _, _) => name,
            RawField::Null => { return false; },
            RawField::Import(_) => { return false; },
        };
        match own {
            Some(n) => *n == *name,
            None => false,
        }
    }

    /// The position of the first node in `fields` whose name is `name`.
    pub fn position_of(fields: &Vec<RawField>, name: &String) -> (res: Option<usize>)
        ensures
            match res {
                Some(at) => position_by_name(raw_views(fields@), name@, 0) == Some(at as int)
                    && at < fields.len(),
                None => position_by_name(raw_views(fields@), name@, 0) is None,
            },
    {
        let mut i: usize = 0;
        while i < fields.len()
            invariant
                i <= fields.len(),
                position_by_name(raw_views(fields@), name@, 0) == position_by_name(
                    raw_views(fields@),
                    name@,
                    i as int,
                ),
            decreases fields.len() - i,
        {
            proof {
                lemma_raw_views(fields@);
            }
            if fields[i].has_name(name) {
                return Some(i);
            }
            i += 1;
        }
        proof {
            lemma_raw_views(fields@);
        }
        None
    }

    /// The first declaration of a protocol whose name is `field_name`,
    /// without its default and its docstring; nothing where `self` is no
    /// protocol or declares no such name.
    pub fn find_field_by_name(&self, field_name: String) -> (res: Option<RawField>)
        ensures
            res.deep_view() == match self.deep_view() {
                RawFieldView::Protocol(_, fields, _, _) => match first_by_name(
                    fields,
                    field_name@,
                ) {
                    Some(field) => Some(field.remove_default()),
                    None => None,
                },
                _ => None,
            },
    {
        match self {
            RawField::Protocol(_, fields, _, _) => {
                match Self::position_of(fields, &field_name) {
                    Some(at) => {
                        proof {
                            lemma_raw_views(fields@);
                        }
                        Some(fields[at].clone().remove_default())
                    },
                    None => None,
                }
            },
            _ => None,
        }
    }

    fn remove_default(self) -> (res: RawField)
        ensures
            res.deep_view() == self.deep_view().remove_default(),
    {
        match self {
            RawField::Int(name, _, _) => RawField::Int(name, HasDefault::NoDefault, None),
            RawField::Long(name, _, _) => RawField::Long(name, HasDefault::NoDefault, None),
            RawField::Float(name, _, _) => RawField::Float(name, HasDefault::NoDefault, None),
            RawField::Double(name, _, _) => RawField::Double(name, HasDefault::NoDefault, None),
            RawField::Boolean(name, _, _) => RawField::Boolean(name, HasDefault::NoDefault, None),
            RawField::String(name, _, _) => RawField::String(name, HasDefault::NoDefault, None),
            RawField::Enum(name, symbols, _, namespace, _) => RawField::Enum(
                name,
                symbols,
                HasDefault::NoDefault,
                namespace,
                None,
            ),
            _ => self,
        }
    }
}

/// A copy of `fields`.
fn clone_raw_fields(fields: &Vec<RawField>) -> (res: Vec<RawField>)
    ensures
        raw_views(res@) == raw_views(fields@),
    decreases fields,
{
    let mut out: Vec<RawField> = Vec::new();
    let mut i: usize = 0;
    while i < fields.len()
        invariant
            i <= fields.len(),
            out.len() == i,
            forall|j: int| 0 <= j < i ==> out@[j].deep_view() == fields@[j].deep_view(),
        decreases fields.len() - i,
    {
        out.push(fields[i].clone());
        i += 1;
    }
    proof {
        lemma_raw_views(out@);
        lemma_raw_views(fields@);
    }
    assert(raw_views(out@) =~= raw_views(fields@));
    out
}

impl Clone for RawField {
    fn clone(&self) -> (res: Self)
        ensures
            res.deep_view() == self.deep_view(),
        decreases self,
    {
        match self {
            RawField::Protocol(name, fields, namespace, doc) => {
                let res = RawField::Protocol(
                    name.clone(),
                    clone_raw_fields(fields),
                    namespace.clone(),
                    doc.clone(),
                );
                res
            },
            RawField::Int(name, default, doc) => RawField::Int(
                name.clone(),
                default.clone(),
                doc.clone(),
            ),
            RawField::Long(name, default, doc) => RawField::Long(
                name.clone(),
                default.clone(),
                doc.clone(),
            ),
            RawField::Float(name, default, doc) => RawField::Float(
                name.clone(),
                default.clone(),
                doc.clone(),
            ),
            RawField::Double(name, default, doc) => RawField::Double(
                name.clone(),
                default.clone(),
                doc.clone(),
            ),
            RawField::Boolean(name, default, doc) => RawField::Boolean(
                name.clone(),
                default.clone(),
                doc.clone(),
            ),
            RawField::String(name, default, doc) => RawField::String(
                name.clone(),
                default.clone(),
                doc.clone(),
            ),
            RawField::Enum(name, symbols, default, namespace, doc) => {
                let copied = symbols.clone();
                assert(copied.deep_view() =~= symbols.deep_view());
                RawField::Enum(name.clone(), copied, default.clone(), namespace.clone(), doc.clone())
            },
            RawField::Record(name, fields, namespace, doc) => {
                let res = RawField::Record(
                    name.clone(),
                    clone_raw_fields(fields),
                    namespace.clone(),
                    doc.clone(),
                );
                res
            },
            RawField::Union(name, members, default, doc) => {
                let res = RawField::Union(
                    name.clone(),
                    clone_raw_fields(members),
                    default.clone(),
                    doc.clone(),
                );
                res
            },
            RawField::Array(name, element, default, doc) => RawField::Array(
                name.clone(),
                Box::new((&**element).clone()),
                default.clone(),
                doc.clone(),
            ),
            RawField::Null => RawField::Null,
            RawField::Unresolved(name, target, doc) => RawField::Unresolved(
                name.clone(),
                target.clone(),
                doc.clone(),
            ),
            RawField::Import(path) => RawField::Import(path.clone()),
        }
    }
}

/// The tree that linking produces: every reference names a record or an enum
/// that the protocol declares.
#[derive(Debug, PartialEq)]
pub enum Field {
    /// Name, declarations, namespace, docstring
    Protocol(Option<String>, Vec<Field>, Option<String>, Option<String>),
    /// Name, default, docstring
    Int(Option<String>, HasDefault<i32>, Option<String>),
    /// Name, default, docstring
    Long(Option<String>, HasDefault<i64>, Option<String>),
    /// Name, default, docstring
    Float(Option<String>, HasDefault<Decimal>, Option<String>),
    /// Name, default, docstring
    Double(Option<String>, HasDefault<Decimal>, Option<String>),
    /// Name, default, docstring
    Boolean(Option<String>, HasDefault<bool>, Option<String>),
    /// Name, default, docstring
    String(Option<String>, HasDefault<String>, Option<String>),
    /// Name, symbols, default, namespace, docstring
    Enum(Option<String>, Vec<String>, HasDefault<String>, Option<String>, Option<String>),
    /// Name, fields, namespace, docstring
    Record(Option<String>, Vec<Field>, Option<String>, Option<String>),
    /// Name, member types, default, docstring
    Union(Option<String>, Vec<Field>, HasDefault<Literal>, Option<String>),
    /// Name, element type, default, docstring
    Array(Option<String>, Box<Field>, HasDefault<Literal>, Option<String>),
    /// Name, name of the record referred to, docstring
    RecordReference(Option<String>, String, Option<String>),
    /// Name, name of the enum referred to, default of that enum, docstring
    EnumReference(Option<String>, String, HasDefault<String>, Option<String>),
    /// The null type, as a member of a union
    Null,
}

/// The model of a [`Field`].
pub enum FieldView {
    Protocol(Option<Seq<char>>, Seq<FieldView>, Option<Seq<char>>, Option<Seq<char>>),
    Int(Option<Seq<char>>, HasDefault<i32>, Option<Seq<char>>),
    Long(Option<Seq<char>>, HasDefault<i64>, Option<Seq<char>>),
    Float(Option<Seq<char>>, HasDefault<Seq<char>>, Option<Seq<char>>),
    Double(Option<Seq<char>>, HasDefault<Seq<char>>, Option<Seq<char>>),
    Boolean(Option<Seq<char>>, HasDefault<bool>, Option<Seq<char>>),
    String(Option<Seq<char>>, HasDefault<Seq<char>>, Option<Seq<char>>),
    Enum(
        Option<Seq<char>>,
        Seq<Seq<char>>,
        HasDefault<Seq<char>>,
        Option<Seq<char>>,
        Option<Seq<char>>,
    ),
    Record(Option<Seq<char>>, Seq<FieldView>, Option<Seq<char>>, Option<Seq<char>>),
    Union(Option<Seq<char>>, Seq<FieldView>, HasDefault<LiteralView>, Option<Seq<char>>),
    Array(Option<Seq<char>>, Box<FieldView>, HasDefault<LiteralView>, Option<Seq<char>>),
    RecordReference(Option<Seq<char>>, Seq<char>, Option<Seq<char>>),
    EnumReference(Option<Seq<char>>, Seq<char>, HasDefault<Seq<char>>, Option<Seq<char>>),
    Null,
}

/// The models of the fields in `fields`, in the same order.
pub open spec fn field_views(fields: Seq<Field>) -> Seq<FieldView>
    decreases fields,
{
    if fields.len() == 0 {
        Seq::empty()
    } else {
        field_views(fields.drop_last()).push(fields.last().model())
    }
}

/// The model of a list has the length of the list, and holds at each place
/// the model of the field at that place.
pub proof fn lemma_field_views(fields: Seq<Field>)
    ensures
        field_views(fields).len() == fields.len(),
        forall|i: int|
            0 <= i < fields.len() ==> (#[trigger] field_views(fields)[i]) == fields[i].deep_view(),
    decreases fields.len(),
{
    if fields.len() > 0 {
        lemma_field_views(fields.drop_last());
    }
}

impl Field {
    /// The model of the tree.
    pub open spec fn model(&self) -> FieldView
        decreases self,
    {
        match self {
            Field::Protocol(name, fields, namespace, doc) => FieldView::Protocol(
                name.deep_view(),
                field_views(fields@),
                namespace.deep_view(),
                doc.deep_view(),
            ),
            Field::Int(name, default, doc) => FieldView::Int(
                name.deep_view(),
                default.deep_view(),
                doc.deep_view(),
            ),
            Field::Long(name, default, doc) => FieldView::Long(
                name.deep_view(),
                default.deep_view(),
                doc.deep_view(),
            ),
            Field::Float(name, default, doc) => FieldView::Float(
                name.deep_view(),
                default.deep_view(),
                doc.deep_view(),
            ),
            Field::Double(name, default, doc) => FieldView::Double(
                name.deep_view(),
                default.deep_view(),
                doc.deep_view(),
            ),
            Field::Boolean(name, default, doc) => FieldView::Boolean(
                name.deep_view(),
                default.deep_view(),
                doc.deep_view(),
            ),
            Field::String(name, default, doc) => FieldView::String(
                name.deep_view(),
                default.deep_view(),
                doc.deep_view(),
            ),
            Field::Enum(name, symbols, default, namespace, doc) => FieldView::Enum(
                name.deep_view(),
                symbols.deep_view(),
                default.deep_view(),
                namespace.deep_view(),
                doc.deep_view(),
            ),
            Field::Record(name, fields, namespace, doc) => FieldView::Record(
                name.deep_view(),
                field_views(fields@),
                namespace.deep_view(),
                doc.deep_view(),
            ),
            Field::Union(name, members, default, doc) => FieldView::Union(
                name.deep_view(),
                field_views(members@),
                default.deep_view(),
                doc.deep_view(),
            ),
            Field::Array(name, element, default, doc) => FieldView::Array(
                name.deep_view(),
                Box::new((**element).model()),
                default.deep_view(),
                doc.deep_view(),
            ),
            Field::RecordReference(name, target, doc) => FieldView::RecordReference(
                name.deep_view(),
                target@,
                doc.deep_view(),
            ),
            Field::EnumReference(name, target, default, doc) => FieldView::EnumReference(
                name.deep_view(),
                target@,
                default.deep_view(),
                doc.deep_view(),
            ),
            Field::Null => FieldView::Null,
        }
    }
}

impl DeepView for Field {
    type V = FieldView;

    open spec fn deep_view(&self) -> FieldView {
        self.model()
    }
}

impl FieldView {
    /// The name by which the Avro format calls the type of the node: the
    /// kind of a node that declares its type, the name of the type referred
    /// to for a reference.
    pub open spec fn avro_type_name(self) -> Seq<char> {
        match self {
            FieldView::Protocol(_, _, _, _) => "protocol"@,
            FieldView::Int(_, _, _) => "int"@,
            FieldView::Long(_, _, _) => "long"@,
            FieldView::Float(_, _, _) => "float"@,
            FieldView::Double(_, _, _) => "double"@,
            FieldView::Boolean(_, _, _) => "boolean"@,
            FieldView::String(_, _, _) => "string"@,
            FieldView::Enum(_, _, _, _, _) => "enum"@,
            FieldView::Record(_, _, _, _) => "record"@,
            FieldView::Union(_, _, _, _) => "union"@,
            FieldView::Array(_, _, _, _) => "array"@,
            FieldView::RecordReference(_, target, _) => target,
            FieldView::EnumReference(_, target, _, _) => target,
            FieldView::Null => "null"@,
        }
    }
}

impl Field {
    /// The name by which the Avro format calls the type of the node. Every
    /// node has one.
    pub fn get_avro_type_name(&self) -> (res: Option<String>)
        ensures
            res.deep_view() == Some(self.deep_view().avro_type_name()),
    {
        match self {
            Field::Protocol(_, _, _, _) => Some("protocol".to_owned()),
            Field::Int(_, _, _) => Some("int".to_owned()),
            Field::Long(_, _, _) => Some("long".to_owned()),
            Field::Float(_, _, _) => Some("float".to_owned()),
            Field::Double(_, _, _) => Some("double".to_owned()),
            Field::Boolean(_, _, _) => Some("boolean".to_owned()),
            Field::String(_, _, _) => Some("string".to_owned()),
            Field::Record(_, _, _, _) => Some("record".to_owned()),
            Field::Enum(_, _, _, _, _) => Some("enum".to_owned()),
            Field::Union(_, _, _, _) => Some("union".to_owned()),
            Field::Array(_, _, _, _) => Some("array".to_owned()),
            Field::RecordReference(_, target, _) => Some(target.clone()),
            Field::EnumReference(_, target, _, _) => Some(target.clone()),
            Field::Null => Some("null".to_owned()),
        }
    }
}

/// A copy of `fields`.
fn clone_fields(fields: &Vec<Field>) -> (res: Vec<Field>)
    ensures
        field_views(res@) == field_views(fields@),
    decreases fields,
{
    let mut out: Vec<Field> = Vec::new();
    let mut i: usize = 0;
    while i < fields.len()
        invariant
            i <= fields.len(),
            out.len() == i,
            forall|j: int| 0 <= j < i ==> out@[j].deep_view() == fields@[j].deep_view(),
        decreases fields.len() - i,
    {
        out.push(fields[i].clone());
        i += 1;
    }
    proof {
        lemma_field_views(out@);
        lemma_field_views(fields@);
    }
    assert(field_views(out@) =~= field_views(fields@));
    out
}

impl Clone for Field {
    fn clone(&self) -> (res: Self)
        ensures
            res.deep_view() == self.deep_view(),
        decreases self,
    {
        match self {
            Field::Protocol(name, fields, namespace, doc) => Field::Protocol(
                name.clone(),
                clone_fields(fields),
                namespace.clone(),
                doc.clone(),
            ),
            Field::Int(name, default, doc) => Field::Int(name.clone(), default.clone(), doc.clone()),
            Field::Long(name, default, doc) => Field::Long(
                name.clone(),
                default.clone(),
                doc.clone(),
            ),
            Field::Float(name, default, doc) => Field::Float(
                name.clone(),
                default.clone(),
                doc.clone(),
            ),
            Field::Double(name, default, doc) => Field::Double(
                name.clone(),
                default.clone(),
                doc.clone(),
            ),
            Field::Boolean(name, default, doc) => Field::Boolean(
                name.clone(),
                default.clone(),
                doc.clone(),
            ),
            Field::String(name, default, doc) => Field::String(
                name.clone(),
                default.clone(),
                doc.clone(),
            ),
            Field::Enum(name, symbols, default, namespace, doc) => {
                let copied = symbols.clone();
                assert(copied.deep_view() =~= symbols.deep_view());
                Field::Enum(name.clone(), copied, default.clone(), namespace.clone(), doc.clone())
            },
            Field::Record(name, fields, namespace, doc) => Field::Record(
                name.clone(),
                clone_fields(fields),
                namespace.clone(),
                doc.clone(),
            ),
            Field::Union(name, members, default, doc) => Field::Union(
                name.clone(),
                clone_fields(members),
                default.clone(),
                doc.clone(),
            ),
            Field::Array(name, element, default, doc) => Field::Array(
                name.clone(),
                Box::new((&**element).clone()),
                default.clone(),
                doc.clone(),
            ),
            Field::RecordReference(name, target, doc) => Field::RecordReference(
                name.clone(),
                target.clone(),
                doc.clone(),
            ),
            Field::EnumReference(name, target, default, doc) => Field::EnumReference(
                name.clone(),
                target.clone(),
                default.clone(),
                doc.clone(),
            ),
            Field::Null => Field::Null,
        }
    }
}

} // verus!
