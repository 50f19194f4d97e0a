//! Structured parse errors: a terminal kind plus an ordered chain of
//! context notes, outermost construct first.

use vstd::prelude::*;
use vstd::string::StringExecFns;
use crate::token::Delim;
use crate::token::Token;
use crate::token::TokenView;

verus! {

/// One context note: which named construct was being parsed when the
/// failure below it happened.
pub enum Context {
    /// parsing the `device` field
    Device,
    /// parsing the `idle` field
    Idle,
    /// parsing the `init` field
    Init,
    /// parsing the `locals` field
    Locals,
    /// parsing a `resources` field
    Resources,
    /// parsing the `tasks` field
    Tasks,
    /// parsing the `enabled` field
    Enabled,
    /// parsing the `priority` field
    Priority,
    /// parsing the static declaration of the named resource
    Static(String),
    /// parsing the named task
    Task(String),
}

/// The view of a context note.
pub enum ContextView {
    Device,
    Idle,
    Init,
    Locals,
    Resources,
    Tasks,
    Enabled,
    Priority,
    Static(Seq<char>),
    Task(Seq<char>),
}

impl View for Context {
    type V = ContextView;

    open spec fn view(&self) -> ContextView {
        match self {
            Context::Device => ContextView::Device,
            Context::Idle => ContextView::Idle,
            Context::Init => ContextView::Init,
            Context::Locals => ContextView::Locals,
            Context::Resources => ContextView::Resources,
            Context::Tasks => ContextView::Tasks,
            Context::Enabled => ContextView::Enabled,
            Context::Priority => ContextView::Priority,
            Context::Static(name) => ContextView::Static(name@),
            Context::Task(name) => ContextView::Task(name@),
        }
    }
}

/// The terminal failure at the innermost point of a parse.
pub enum ErrorKind {
    /// a delimited group was required and none was found
    ExpectedGroup(Delim),
    /// a delimited group was found, but of the wrong delimiter kind
    /// (expected, found)
    WrongDelim(Delim, Delim),
    ExpectedIdent,
    ExpectedColon,
    ExpectedComma,
    /// a static declaration ended before its `=` separator
    ExpectedEq,
    /// a static declaration ended before its `;` terminator
    ExpectedSemi,
    /// a boolean literal was required; the token found, if any
    ExpectedBool(Option<Token>),
    /// an unsuffixed unsigned integer literal was required; the token
    /// found, if any
    ExpectedInt(Option<Token>),
    /// an integer literal above the `u8` range, with its value
    OutOfRange(u64),
    UnknownField(String),
    DuplicateField(String),
    DuplicateResource(String),
    DuplicateTask(String),
    DuplicateIdent(String),
    MissingField(String),
    /// a static declaration with an empty type fragment
    MissingType,
    /// a static declaration with an empty initializer fragment
    MissingExpr,
}

/// The view of an error kind.
pub enum ErrorKindView {
    ExpectedGroup(Delim),
    WrongDelim(Delim, Delim),
    ExpectedIdent,
    ExpectedColon,
    ExpectedComma,
    ExpectedEq,
    ExpectedSemi,
    ExpectedBool(Option<TokenView>),
    ExpectedInt(Option<TokenView>),
    OutOfRange(u64),
    UnknownField(Seq<char>),
    DuplicateField(Seq<char>),
    DuplicateResource(Seq<char>),
    DuplicateTask(Seq<char>),
    DuplicateIdent(Seq<char>),
    MissingField(Seq<char>),
    MissingType,
    MissingExpr,
}

impl View for ErrorKind {
    type V = ErrorKindView;

    open spec fn view(&self) -> ErrorKindView {
        match self {
            ErrorKind::ExpectedGroup(d) => ErrorKindView::ExpectedGroup(*d),
            ErrorKind::WrongDelim(want, found) => ErrorKindView::WrongDelim(*want, *found),
            ErrorKind::ExpectedIdent => ErrorKindView::ExpectedIdent,
            ErrorKind::ExpectedColon => ErrorKindView::ExpectedColon,
            ErrorKind::ExpectedComma => ErrorKindView::ExpectedComma,
            ErrorKind::ExpectedEq => ErrorKindView::ExpectedEq,
            ErrorKind::ExpectedSemi => ErrorKindView::ExpectedSemi,
            ErrorKind::ExpectedBool(found) => ErrorKindView::ExpectedBool(
                match found {
                    Some(t) => Some(t@),
                    None => None,
                },
            ),
            ErrorKind::ExpectedInt(found) => ErrorKindView::ExpectedInt(
                match found {
                    Some(t) => Some(t@),
                    None => None,
                },
            ),
            ErrorKind::OutOfRange(n) => ErrorKindView::OutOfRange(*n),
            ErrorKind::UnknownField(name) => ErrorKindView::UnknownField(name@),
            ErrorKind::DuplicateField(name) => ErrorKindView::DuplicateField(name@),
            ErrorKind::DuplicateResource(name) => ErrorKindView::DuplicateResource(name@),
            ErrorKind::DuplicateTask(name) => ErrorKindView::DuplicateTask(name@),
            ErrorKind::DuplicateIdent(name) => ErrorKindView::DuplicateIdent(name@),
            ErrorKind::MissingField(name) => ErrorKindView::MissingField(name@),
            ErrorKind::MissingType => ErrorKindView::MissingType,
            ErrorKind::MissingExpr => ErrorKindView::MissingExpr,
        }
    }
}

/// A parse failure: the terminal kind, under an ordered chain of context
/// notes, outermost construct first.
pub struct Error {
    pub context: Vec<Context>,
    pub kind: ErrorKind,
}

/// The view of an `Error`.
pub struct ErrorView {
    pub context: Seq<ContextView>,
    pub kind: ErrorKindView,
}

/// The view of a context chain, elementwise.
pub open spec fn contexts_view(chain: Seq<Context>) -> Seq<ContextView> {
    Seq::new(chain.len(), |i: int| chain[i]@)
}

impl View for Error {
    type V = ErrorView;

    open spec fn view(&self) -> ErrorView {
        ErrorView { context: contexts_view(self.context@), kind: self.kind@ }
    }
}

/// An error with no context notes yet.
pub open spec fn ev0(kind: ErrorKindView) -> ErrorView {
    ErrorView { context: Seq::empty(), kind }
}

/// An error with one more context note prepended (it becomes the
/// outermost note of the chain).
pub open spec fn ev_wrap(e: ErrorView, c: ContextView) -> ErrorView {
    ErrorView { context: seq![c] + e.context, kind: e.kind }
}

/// A fresh error of the given kind, with an empty context chain.
pub fn err0(kind: ErrorKind) -> (r: Error)
    ensures
        r@ == ev0(kind@),
{
    let r = Error { context: Vec::new(), kind };
    proof {
        assert(contexts_view(r.context@) =~= Seq::<ContextView>::empty());
    }
    r
}

/// The given error with one more context note, now outermost.
pub fn wrap_err(e: Error, c: Context) -> (r: Error)
    ensures
        r@ == ev_wrap(e@, c@),
{
    let ghost old_chain = e.context@;
    let mut chain = e.context;
    chain.insert(0, c);
    let r = Error { context: chain, kind: e.kind };
    proof {
        assert(contexts_view(r.context@) =~= seq![c@] + contexts_view(old_chain));
    }
    r
}

/// A `String` with the contents of a string literal.
pub fn string_of(lit: &str) -> (r: String)
    ensures
        r@ == lit@,
{
    String::from_str(lit)
}

} // verus!
