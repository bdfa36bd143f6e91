//! The front end: a text becomes a protocol, and the files that it imports
//! are worked in where the imports stand.
//!
//! The lexer reads no file. It is handed the text of the root file; where
//! an import is met it says which file it needs, and goes on when the text of
//! that file is handed in.

use crate::ast::{lemma_raw_views, raw_views, RawField, RawFieldView};
use crate::error::{AvroError, AvroErrorView};
use crate::grammar;
use crate::grammar::Expected;
use crate::reader::read_protocol;
use crate::scan::Source;
use crate::shape::{
    all_named_types, in_namespace, is_complete_protocol, is_declaration, is_parsed_protocol,
    lemma_protocol_shape,
};
use vstd::prelude::*;

verus! {

/// The text of a decimal digit.
fn digit_str(digit: usize) -> (res: &'static str)
    requires
        digit < 10,
    ensures
        res@ == grammar::digit_text(digit as nat),
{
    if digit == 0 {
        "0"
    } else if digit == 1 {
        "1"
    } else if digit == 2 {
        "2"
    } else if digit == 3 {
        "3"
    } else if digit == 4 {
        "4"
    } else if digit == 5 {
        "5"
    } else if digit == 6 {
        "6"
    } else if digit == 7 {
        "7"
    } else if digit == 8 {
        "8"
    } else {
        "9"
    }
}

/// The text of `n` in decimal digits.
pub fn decimal_string(n: usize) -> (res: String)
    ensures
        res@ == grammar::decimal_text(n as nat),
    decreases n,
{
    if n < 10 {
        digit_str(n).to_owned()
    } else {
        let mut text = decimal_string(n / 10);
        text.append(digit_str(n % 10));
        text
    }
}

/// What the grammar looked for, in words.
fn expected_str(expected: Expected) -> (res: &'static str)
    ensures
        res@ == grammar::expected_text(expected),
{
    match expected {
        Expected::ProtocolKeyword => "expected the keyword 'protocol'",
        Expected::ProtocolName => "expected the name of the protocol",
        Expected::OpeningBrace => "expected '{'",
        Expected::Declaration => "expected an import, a record, an enum or '}'",
        Expected::Field => "expected a field or '}'",
        Expected::EndOfText => "expected the end of the text",
    }
}

/// The description of a mismatch for the reader.
pub fn describe_mismatch(src: &Source, expected: Expected, at: usize) -> (res: String)
    requires
        at <= src@.len(),
    ensures
        res@ == grammar::mismatch_message(src@, grammar::Mismatch { expected, at: at as int }),
{
    let found = if at < src.len() {
        let mut quoted = "'".to_owned();
        quoted.append(src.slice(at, at + 1).as_str());
        quoted.append("'");
        quoted
    } else {
        "the end of the text".to_owned()
    };
    let mut message = expected_str(expected).to_owned();
    message.append(" at offset ");
    message.append(decimal_string(at).as_str());
    message.append(", found ");
    message.append(found.as_str());
    message
}

/// The failure for a text that does not follow the grammar.
pub open spec fn failed_parsing(s: Seq<char>, mismatch: grammar::Mismatch) -> AvroErrorView {
    AvroErrorView::FailedParsing(grammar::mismatch_message(s, mismatch))
}

/// What a text says when read alone: the protocol that it declares, imports
/// still in place, or why it is no protocol.
pub open spec fn parsed(s: Seq<char>) -> Result<RawFieldView, AvroErrorView> {
    match grammar::protocol(s) {
        Ok(tree) => Ok(tree),
        Err(mismatch) => Err(failed_parsing(s, mismatch)),
    }
}

/// The model of a tree or a failure.
pub open spec fn tree_view(res: Result<RawField, AvroError>) -> Result<RawFieldView, AvroErrorView> {
    match res {
        Ok(tree) => Ok(tree.deep_view()),
        Err(e) => Err(e.deep_view()),
    }
}

/// Reads one text by the grammar. `Ok` with the protocol exactly where the
/// whole text is a protocol; otherwise the failure says where the text
/// stopped matching and what was expected there.
pub fn parse_text(text: &str) -> (res: Result<RawField, AvroError>)
    ensures
        tree_view(res) == parsed(text@),
        res matches Ok(tree) ==> is_parsed_protocol(tree.deep_view()),
{
    let src = Source::new(text.to_owned());
    proof {
        lemma_protocol_shape(src@);
    }
    match read_protocol(&src) {
        Ok(tree) => Ok(tree),
        Err((expected, at)) => Err(AvroError::FailedParsing(describe_mismatch(&src, expected, at))),
    }
}

/// A declaration with the namespace of the protocol that takes it in: a
/// record or an enum gets that namespace in place of its own, anything else
/// stays as it is.
pub open spec fn attach(declaration: RawFieldView, namespace: Option<Seq<char>>) -> RawFieldView {
    match declaration {
        RawFieldView::Record(name, fields, _, doc) => RawFieldView::Record(
            name,
            fields,
            namespace,
            doc,
        ),
        RawFieldView::Enum(name, symbols, default, _, doc) => RawFieldView::Enum(
            name,
            symbols,
            default,
            namespace,
            doc,
        ),
        _ => declaration,
    }
}

/// The declarations `declarations`, each with the namespace `namespace`.
pub open spec fn attach_all(declarations: Seq<RawFieldView>, namespace: Option<Seq<char>>) -> Seq<
    RawFieldView,
> {
    Seq::new(declarations.len(), |i: int| attach(declarations[i], namespace))
}

/// The declarations `declarations`, each with the file that it came from.
pub open spec fn tagged(declarations: Seq<RawFieldView>, origin: Seq<char>) -> Seq<
    (Seq<char>, RawFieldView),
> {
    Seq::new(declarations.len(), |i: int| (origin, declarations[i]))
}

/// True when none of `declarations` is an import.
pub open spec fn no_import(declarations: Seq<RawFieldView>) -> bool {
    forall|i: int| 0 <= i < declarations.len() ==> !((#[trigger] declarations[i]) is Import)
}

/// The failure for a text whose tree is no protocol.
pub open spec fn not_a_protocol() -> AvroErrorView {
    AvroErrorView::InvalidASTDataType("Didn't extract protocol"@)
}

/// What the lexer says after a text was handed in.
#[derive(Debug, PartialEq)]
pub enum Progress {
    /// Every import is worked in: this is the protocol.
    Complete(RawField),
    /// The text of another file is needed: the file that `path` names, seen
    /// from the file `referrer`.
    NeedsImport { referrer: String, path: String },
}

/// The model of a [`Progress`].
pub enum ProgressView {
    Complete(RawFieldView),
    NeedsImport { referrer: Seq<char>, path: Seq<char> },
}

impl DeepView for Progress {
    type V = ProgressView;

    open spec fn deep_view(&self) -> ProgressView {
        match self {
            Progress::Complete(tree) => ProgressView::Complete(tree.deep_view()),
            Progress::NeedsImport { referrer, path } => ProgressView::NeedsImport {
                referrer: referrer@,
                path: path@,
            },
        }
    }
}

/// The model of an [`AvroIdlLexer`].
pub struct LexerView {
    /// The root file.
    pub path: Seq<char>,
    /// Name, namespace and docstring of the root protocol.
    pub name: Option<Seq<char>>,
    pub namespace: Option<Seq<char>>,
    pub doc: Option<Seq<char>>,
    /// The declarations that are not yet placed, the next one first, each
    /// with the file that it came from.
    pub waiting: Seq<(Seq<char>, RawFieldView)>,
    /// The declarations of the protocol as far as they are settled.
    pub placed: Seq<RawFieldView>,
}

impl LexerView {
    /// The lexer of the same root file with nothing under way.
    pub open spec fn idle(self) -> LexerView {
        LexerView {
            path: self.path,
            name: None,
            namespace: None,
            doc: None,
            waiting: Seq::empty(),
            placed: Seq::empty(),
        }
    }

    /// What holds of every lexer between two calls: what is placed are
    /// named records and named enums with the namespace of the root
    /// protocol; what waits are declarations as the grammar gives them; and
    /// while anything waits, the root protocol has its name.
    pub open spec fn well_formed(self) -> bool {
        &&& all_named_types(self.placed)
        &&& in_namespace(self.placed, self.namespace)
        &&& forall|i: int|
            0 <= i < self.waiting.len() ==> is_declaration((#[trigger] self.waiting[i]).1)
        &&& self.waiting.len() > 0 ==> self.name is Some
    }

    /// Places waiting declarations, each with the namespace of the root
    /// protocol, until an import is next or none is left. At an import the
    /// lexer stops and asks for the file; with none left the protocol is
    /// complete and the lexer is idle again.
    pub open spec fn settle(self) -> (LexerView, ProgressView)
        decreases self.waiting.len(),
    {
        if self.waiting.len() == 0 {
            (
                self.idle(),
                ProgressView::Complete(
                    RawFieldView::Protocol(self.name, self.placed, self.namespace, self.doc),
                ),
            )
        } else {
            match self.waiting[0].1 {
                RawFieldView::Import(path) => (
                    self,
                    ProgressView::NeedsImport { referrer: self.waiting[0].0, path },
                ),
                declaration => LexerView {
                    waiting: self.waiting.drop_first(),
                    placed: self.placed.push(attach(declaration, self.namespace)),
                    ..self
                }.settle(),
            }
        }
    }

    /// Takes in the text of the file `origin`.
    ///
    /// With nothing under way the text is the root file: its protocol gives
    /// name, namespace and docstring, and its declarations wait to be placed.
    /// Otherwise the text is the file that the import in front names: its
    /// declarations take the place of that import, in their order, and
    /// whatever namespace the file has is dropped. Either way the lexer then
    /// settles. A text that is no protocol is a failure.
    pub open spec fn accept(self, text: Seq<char>, origin: Seq<char>) -> Result<
        (LexerView, ProgressView),
        AvroErrorView,
    > {
        match parsed(text) {
            Err(e) => Err(e),
            Ok(RawFieldView::Protocol(name, declarations, namespace, doc)) => if self.waiting.len()
                > 0 {
                Ok(
                    LexerView {
                        waiting: tagged(declarations, origin) + self.waiting.drop_first(),
                        ..self
                    }.settle(),
                )
            } else {
                Ok(
                    LexerView {
                        path: self.path,
                        name,
                        namespace,
                        doc,
                        waiting: tagged(declarations, origin),
                        placed: Seq::empty(),
                    }.settle(),
                )
            },
            Ok(_) => Err(not_a_protocol()),
        }
    }
}

/// A declaration that waits to be placed, with the file that it came from.
struct Pending {
    origin: String,
    declaration: RawField,
}

/// The model of the stack of waiting declarations: the top of the stack is
/// the next declaration.
spec fn pending_views(stack: Seq<Pending>) -> Seq<(Seq<char>, RawFieldView)>
    decreases stack.len(),
{
    if stack.len() == 0 {
        Seq::empty()
    } else {
        seq![(stack.last().origin@, stack.last().declaration.deep_view())] + pending_views(
            stack.drop_last(),
        )
    }
}

proof fn lemma_pending_push(stack: Seq<Pending>, top: Pending)
    ensures
        pending_views(stack.push(top)) == seq![(top.origin@, top.declaration.deep_view())]
            + pending_views(stack),
{
    assert(stack.push(top).drop_last() =~= stack);
}

proof fn lemma_pending_len(stack: Seq<Pending>)
    ensures
        pending_views(stack).len() == stack.len(),
    decreases stack.len(),
{
    if stack.len() > 0 {
        lemma_pending_len(stack.drop_last());
    }
}

/// The front end for one root file: it reads each text by the grammar and
/// works the declarations of imported files in where the imports stand.
pub struct AvroIdlLexer {
    path: String,
    name: Option<String>,
    namespace: Option<String>,
    doc: Option<String>,
    waiting: Vec<Pending>,
    placed: Vec<RawField>,
}

/// The model of a lexer that holds these parts.
spec fn state_of(
    path: Seq<char>,
    name: Option<String>,
    namespace: Option<String>,
    doc: Option<String>,
    waiting: Seq<Pending>,
    placed: Seq<RawField>,
) -> LexerView {
    LexerView {
        path,
        name: name.deep_view(),
        namespace: namespace.deep_view(),
        doc: doc.deep_view(),
        waiting: pending_views(waiting),
        placed: raw_views(placed),
    }
}

impl View for AvroIdlLexer {
    type V = LexerView;

    closed spec fn view(&self) -> LexerView {
        state_of(
            self.path@,
            self.name,
            self.namespace,
            self.doc,
            self.waiting@,
            self.placed@,
        )
    }
}

/// A declaration with the namespace of the protocol that takes it in.
fn attach_namespace(declaration: RawField, namespace: &Option<String>) -> (res: RawField)
    ensures
        res.deep_view() == attach(declaration.deep_view(), namespace.deep_view()),
{
    match declaration {
        RawField::Record(name, fields, _, doc) => RawField::Record(
            name,
            fields,
            namespace.clone(),
            doc,
        ),
        RawField::Enum(name, symbols, default, _, doc) => RawField::Enum(
            name,
            symbols,
            default,
            namespace.clone(),
            doc,
        ),
        other => other,
    }
}

/// Puts `declarations`, which came from the file `origin`, in front of what
/// waits, in their order.
fn put_in_front(waiting: &mut Vec<Pending>, declarations: Vec<RawField>, origin: &String)
    ensures
        pending_views(final(waiting)@) == tagged(raw_views(declarations@), origin@) + pending_views(
            old(waiting)@,
        ),
{
    let mut declarations = declarations;
    let ghost rest = pending_views(waiting@);
    let ghost all = raw_views(declarations@);
    proof {
        lemma_raw_views(declarations@);
        assert(tagged(all.subrange(all.len() as int, all.len() as int), origin@) + rest =~= rest);
    }
    while declarations.len() > 0
        invariant
            declarations.len() <= all.len(),
            raw_views(declarations@) == all.take(declarations.len() as int),
            pending_views(waiting@) == tagged(
                all.subrange(declarations.len() as int, all.len() as int),
                origin@,
            ) + rest,
        decreases declarations.len(),
    {
        let ghost before = declarations@;
        let ghost stack = waiting@;
        let declaration = declarations.pop().unwrap();
        let pending = Pending { origin: origin.clone(), declaration };
        proof {
            let k = declarations.len() as int;
            lemma_raw_views(before);
            lemma_raw_views(declarations@);
            assert(raw_views(before)[k] == before[k].deep_view());
            assert(all.take(k + 1)[k] == all[k]);
            assert(raw_views(declarations@) =~= all.take(k));
            lemma_pending_push(stack, pending);
            let longer = tagged(all.subrange(k, all.len() as int), origin@);
            let shorter = tagged(all.subrange(k + 1, all.len() as int), origin@);
            assert(longer =~= seq![(origin@, all[k])] + shorter);
            assert(seq![(origin@, all[k])] + (shorter + rest) =~= longer + rest);
        }
        waiting.push(pending);
    }
    assert(all.subrange(0, all.len() as int) =~= all);
}

/// Places waiting declarations until an import is next or none is left.
/// Gives the file that is needed, if one is.
fn settle(
    namespace: &Option<String>,
    waiting: &mut Vec<Pending>,
    placed: &mut Vec<RawField>,
    Ghost(before): Ghost<LexerView>,
) -> (res: Option<(String, String)>)
    requires
        before.waiting == pending_views(old(waiting)@),
        before.placed == raw_views(old(placed)@),
        before.namespace == namespace.deep_view(),
        before.well_formed(),
    ensures
        match res {
            Some((referrer, path)) => before.settle() == (
                LexerView {
                    waiting: pending_views(final(waiting)@),
                    placed: raw_views(final(placed)@),
                    ..before
                },
                ProgressView::NeedsImport { referrer: referrer@, path: path@ },
            ) && final(waiting)@.len() > 0,
            None => before.settle() == (
                before.idle(),
                ProgressView::Complete(
                    RawFieldView::Protocol(
                        before.name,
                        raw_views(final(placed)@),
                        before.namespace,
                        before.doc,
                    ),
                ),
            ),
        },
        (LexerView {
            waiting: pending_views(final(waiting)@),
            placed: raw_views(final(placed)@),
            ..before
        }).well_formed(),
{
    loop
        invariant
            before.namespace == namespace.deep_view(),
            (LexerView {
                waiting: pending_views(waiting@),
                placed: raw_views(placed@),
                ..before
            }).settle() == before.settle(),
            (LexerView {
                waiting: pending_views(waiting@),
                placed: raw_views(placed@),
                ..before
            }).well_formed(),
        decreases waiting.len(),
    {
        proof {
            lemma_pending_len(waiting@);
        }
        let n = waiting.len();
        if n == 0 {
            return None;
        }
        match &waiting[n - 1].declaration {
            RawField::Import(path) => {
                return Some((waiting[n - 1].origin.clone(), path.clone()));
            },
            _ => {},
        }
        let ghost stack = waiting@;
        let ghost settled = placed@;
        let pending = waiting.pop().unwrap();
        let declaration = attach_namespace(pending.declaration, namespace);
        proof {
            assert(pending_views(waiting@) =~= pending_views(stack).drop_first());
            lemma_raw_views(settled);
            lemma_raw_views(settled.push(declaration));
            assert(raw_views(settled.push(declaration)) =~= raw_views(settled).push(
                declaration.deep_view(),
            ));
        }
        placed.push(declaration);
    }
}

impl AvroIdlLexer {
    #[verifier::type_invariant]
    spec fn consistent(self) -> bool {
        self@.well_formed()
    }

    /// A lexer for the root file `path`, with nothing under way.
    pub fn new(path: String) -> (res: Self)
        ensures
            res@ == (LexerView {
                path: path@,
                name: None,
                namespace: None,
                doc: None,
                waiting: Seq::empty(),
                placed: Seq::empty(),
            }),
    {
        let placed: Vec<RawField> = Vec::new();
        proof {
            lemma_raw_views(placed@);
            assert(raw_views(placed@) =~= Seq::<RawFieldView>::empty());
        }
        AvroIdlLexer {
            path,
            name: None,
            namespace: None,
            doc: None,
            waiting: Vec::new(),
            placed,
        }
    }

    /// The root file.
    pub fn path(&self) -> (res: &String)
        ensures
            res@ == self@.path,
    {
        &self.path
    }

    /// Takes in the text of the root file. See [`AvroIdlLexer::parse_idl`].
    pub fn parse(&mut self, src: String) -> (res: Result<Progress, AvroError>)
        ensures
            match old(self)@.accept(src@, old(self)@.path) {
                Ok((state, progress)) => res matches Ok(p) && p.deep_view() == progress
                    && final(self)@ == state,
                Err(e) => res matches Err(failure) && failure.deep_view() == e && final(self)@
                    == old(self)@.idle(),
            },
            res matches Ok(Progress::Complete(tree)) ==> is_complete_protocol(tree.deep_view()),
    {
        let path = self.path.clone();
        self.parse_idl(src, path)
    }

    /// Takes in the text `src` of the file `path`: the root file where
    /// nothing is under way, else the file that the lexer asked for last.
    ///
    /// `Ok(Complete(protocol))` where no import is left: the protocol holds
    /// the declarations of the root file, each import replaced by the
    /// declarations of the file that it names, and every record and enum
    /// has the namespace of the root protocol. `Ok(NeedsImport { .. })` where
    /// an import is next. `Err` where `src` is no protocol; the lexer then
    /// drops what was under way.
    pub fn parse_idl(&mut self, src: String, path: String) -> (res: Result<Progress, AvroError>)
        ensures
            match old(self)@.accept(src@, path@) {
                Ok((state, progress)) => res matches Ok(p) && p.deep_view() == progress
                    && final(self)@ == state,
                Err(e) => res matches Err(failure) && failure.deep_view() == e && final(self)@
                    == old(self)@.idle(),
            },
            res matches Ok(Progress::Complete(tree)) ==> is_complete_protocol(tree.deep_view()),
    {
        proof {
            use_type_invariant(&*self);
        }
        let ghost start = self@;
        let mut held = AvroIdlLexer::new(self.path.clone());
        core::mem::swap(self, &mut held);
        let AvroIdlLexer { path: root, name, namespace, doc, waiting, placed } = held;
        let mut name = name;
        let mut namespace = namespace;
        let mut doc = doc;
        let mut waiting = waiting;
        let mut placed = placed;
        let declarations = match parse_text(src.as_str()) {
            Ok(RawField::Protocol(title, declarations, space, about)) => {
                proof {
                    lemma_pending_len(waiting@);
                }
                if waiting.len() > 0 {
                    let ghost stack = waiting@;
                    waiting.pop();
                    assert(pending_views(waiting@) =~= pending_views(stack).drop_first());
                } else {
                    name = title;
                    namespace = space;
                    doc = about;
                    placed = Vec::new();
                    proof {
                        lemma_raw_views(placed@);
                        assert(raw_views(placed@) =~= Seq::<RawFieldView>::empty());
                    }
                }
                declarations
            },
            Ok(_) => {
                return Err(AvroError::InvalidASTDataType("Didn't extract protocol".to_owned()));
            },
            Err(e) => {
                return Err(e);
            },
        };
        let ghost rest = pending_views(waiting@);
        let ghost all = raw_views(declarations@);
        proof {
            lemma_raw_views(declarations@);
            assert forall|i: int| 0 <= i < rest.len() implies is_declaration(
                (#[trigger] rest[i]).1,
            ) by {
                if start.waiting.len() > 0 {
                    assert(rest[i] == start.waiting[i + 1]);
                }
            }
        }
        put_in_front(&mut waiting, declarations, &path);
        let ghost begun = state_of(root@, name, namespace, doc, waiting@, placed@);
        proof {
            let front = tagged(all, path@);
            assert forall|i: int| 0 <= i < begun.waiting.len() implies is_declaration(
                (#[trigger] begun.waiting[i]).1,
            ) by {
                if i < front.len() {
                    assert(begun.waiting[i].1 == all[i]);
                } else {
                    assert(begun.waiting[i] == rest[i - front.len()]);
                }
            }
            if start.waiting.len() > 0 {
                assert(begun == (LexerView { waiting: front + start.waiting.drop_first(), ..start }));
            } else {
                assert(front + rest =~= front);
            }
        }
        match settle(&namespace, &mut waiting, &mut placed, Ghost(begun)) {
            Some((referrer, file)) => {
                let mut next = AvroIdlLexer { path: root, name, namespace, doc, waiting, placed };
                core::mem::swap(self, &mut next);
                Ok(Progress::NeedsImport { referrer, path: file })
            },
            None => Ok(Progress::Complete(RawField::Protocol(name, placed, namespace, doc))),
        }
    }
}

/// Declarations that wait in front and hold no import are placed in their
/// order, each with the namespace of the root protocol, before anything
/// behind them is looked at.
pub proof fn lemma_settle_places(
    state: LexerView,
    declarations: Seq<RawFieldView>,
    origin: Seq<char>,
    rest: Seq<(Seq<char>, RawFieldView)>,
)
    requires
        state.waiting == tagged(declarations, origin) + rest,
        no_import(declarations),
    ensures
        state.settle() == (LexerView {
            waiting: rest,
            placed: state.placed + attach_all(declarations, state.namespace),
            ..state
        }).settle(),
    decreases declarations.len(),
{
    if declarations.len() == 0 {
        assert(state.waiting =~= rest);
        assert(state.placed + attach_all(declarations, state.namespace) =~= state.placed);
    } else {
        let first = declarations[0];
        let others = declarations.drop_first();
        assert(state.waiting[0] == (origin, first));
        assert(!(first is Import));
        let next = LexerView {
            waiting: state.waiting.drop_first(),
            placed: state.placed.push(attach(first, state.namespace)),
            ..state
        };
        assert(state.settle() == next.settle());
        assert(next.waiting =~= tagged(others, origin) + rest);
        assert forall|i: int| 0 <= i < others.len() implies !((#[trigger] others[i]) is Import) by {
            assert(others[i] == declarations[i + 1]);
        }
        lemma_settle_places(next, others, origin, rest);
        assert(next.placed + attach_all(others, state.namespace) =~= state.placed + attach_all(
            declarations,
            state.namespace,
        ));
    }
}

/// A root file without imports: the protocol is complete at once. It holds
/// the declarations of the file in their order, and every record and enum
/// among them has the namespace of the protocol.
pub proof fn lemma_text_without_imports(state: LexerView, text: Seq<char>, origin: Seq<char>)
    requires
        state.waiting.len() == 0,
        parsed(text) matches Ok(RawFieldView::Protocol(_, declarations, _, _)) && no_import(
            declarations,
        ),
    ensures
        parsed(text) matches Ok(RawFieldView::Protocol(name, declarations, namespace, doc))
            && state.accept(text, origin) == Ok::<(LexerView, ProgressView), AvroErrorView>(
            (
                state.idle(),
                ProgressView::Complete(
                    RawFieldView::Protocol(
                        name,
                        attach_all(declarations, namespace),
                        namespace,
                        doc,
                    ),
                ),
            ),
        ),
{
    match parsed(text) {
        Ok(RawFieldView::Protocol(name, declarations, namespace, doc)) => {
            let begun = LexerView {
                path: state.path,
                name,
                namespace,
                doc,
                waiting: tagged(declarations, origin),
                placed: Seq::empty(),
            };
            assert(begun.waiting =~= tagged(declarations, origin) + Seq::empty());
            lemma_settle_places(begun, declarations, origin, Seq::empty());
            assert(Seq::<RawFieldView>::empty() + attach_all(declarations, namespace)
                =~= attach_all(declarations, namespace));
        },
        _ => {},
    }
}

/// An imported file without imports of its own: its declarations are placed
/// where the import stood, in their order and before what followed the
/// import, and their records and enums get the namespace of the root
/// protocol in place of the namespace of the imported file.
pub proof fn lemma_import_is_replaced(state: LexerView, text: Seq<char>, origin: Seq<char>)
    requires
        state.waiting.len() > 0,
        parsed(text) matches Ok(RawFieldView::Protocol(_, declarations, _, _)) && no_import(
            declarations,
        ),
    ensures
        parsed(text) matches Ok(RawFieldView::Protocol(_, declarations, _, _)) && state.accept(
            text,
            origin,
        ) == Ok::<(LexerView, ProgressView), AvroErrorView>(
            (LexerView {
                waiting: state.waiting.drop_first(),
                placed: state.placed + attach_all(declarations, state.namespace),
                ..state
            }).settle(),
        ),
{
    match parsed(text) {
        Ok(RawFieldView::Protocol(_, declarations, _, _)) => {
            let spliced = LexerView {
                waiting: tagged(declarations, origin) + state.waiting.drop_first(),
                ..state
            };
            lemma_settle_places(spliced, declarations, origin, state.waiting.drop_first());
        },
        _ => {},
    }
}

} // verus!
