//! A JSON document as a value: what rendering produces, before any writer
//! turns it into text.

use crate::ast::Decimal;
use vstd::prelude::*;

verus! {

/// A JSON value. The members of an object keep the order in which they were
/// added. A number is an integer or a decimal number in its written form,
/// marked with the precision that the schema gave it.
#[derive(Debug, PartialEq)]
pub enum Json {
    Null,
    Bool(bool),
    Integer(i64),
    /// A number of single precision
    Float(Decimal),
    /// A number of double precision
    Double(Decimal),
    Text(String),
    List(Vec<Json>),
    Object(Vec<(String, Json)>),
}

/// The model of a [`Json`].
pub enum JsonView {
    Null,
    Bool(bool),
    Integer(i64),
    Float(Seq<char>),
    Double(Seq<char>),
    Text(Seq<char>),
    List(Seq<JsonView>),
    Object(Seq<(Seq<char>, JsonView)>),
}

/// The models of the values in `items`, in the same order.
pub open spec fn json_views(items: Seq<Json>) -> Seq<JsonView>
    decreases items,
{
    if items.len() == 0 {
        Seq::empty()
    } else {
        json_views(items.drop_last()).push(items.last().model())
    }
}

/// The models of the members in `members`, in the same order.
pub open spec fn member_views(members: Seq<(String, Json)>) -> Seq<(Seq<char>, JsonView)>
    decreases members,
{
    if members.len() == 0 {
        Seq::empty()
    } else {
        member_views(members.drop_last()).push((members.last().0@, members.last().1.model()))
    }
}

impl Json {
    /// The model of the value.
    pub open spec fn model(&self) -> JsonView
        decreases self,
    {
        match self {
            Json::Null => JsonView::Null,
            Json::Bool(v) => JsonView::Bool(*v),
            Json::Integer(v) => JsonView::Integer(*v),
            Json::Float(v) => JsonView::Float(v@),
            Json::Double(v) => JsonView::Double(v@),
            Json::Text(v) => JsonView::Text(v@),
            Json::List(items) => JsonView::List(json_views(items@)),
            Json::Object(members) => JsonView::Object(member_views(members@)),
        }
    }
}

impl DeepView for Json {
    type V = JsonView;

    open spec fn deep_view(&self) -> JsonView {
        self.model()
    }
}

/// The model of a list has the length of the list, and holds at each place
/// the model of the value at that place.
pub proof fn lemma_json_views(items: Seq<Json>)
    ensures
        json_views(items).len() == items.len(),
        forall|i: int|
            0 <= i < items.len() ==> (#[trigger] json_views(items)[i]) == items[i].deep_view(),
    decreases items.len(),
{
    if items.len() > 0 {
        lemma_json_views(items.drop_last());
    }
}

/// Adding a value to a list adds its model to the model of the list.
pub proof fn lemma_json_views_push(items: Seq<Json>, item: Json)
    ensures
        json_views(items.push(item)) == json_views(items).push(item.deep_view()),
{
    assert(items.push(item).drop_last() =~= items);
}

/// Adding a member to an object adds its model to the model of the object.
pub proof fn lemma_member_views_push(members: Seq<(String, Json)>, key: String, value: Json)
    ensures
        member_views(members.push((key, value))) == member_views(members).push(
            (key@, value.deep_view()),
        ),
{
    assert(members.push((key, value)).drop_last() =~= members);
}

/// The members of an object, as a list to add to.
pub struct Members {
    list: Vec<(String, Json)>,
}

impl View for Members {
    type V = Seq<(Seq<char>, JsonView)>;

    closed spec fn view(&self) -> Seq<(Seq<char>, JsonView)> {
        member_views(self.list@)
    }
}

impl Members {
    /// No members.
    pub fn new() -> (res: Self)
        ensures
            res@ == Seq::<(Seq<char>, JsonView)>::empty(),
    {
        Members { list: Vec::new() }
    }

    /// Adds the member `key` with the value `value` behind the others.
    pub fn add(&mut self, key: &str, value: Json)
        ensures
            final(self)@ == old(self)@.push((key@, value.deep_view())),
    {
        let owned = key.to_owned();
        proof {
            lemma_member_views_push(self.list@, owned, value);
        }
        self.list.push((owned, value));
    }

    /// The object with these members.
    pub fn into_object(self) -> (res: Json)
        ensures
            res.deep_view() == JsonView::Object(self@),
    {
        Json::Object(self.list)
    }
}

} // verus!
