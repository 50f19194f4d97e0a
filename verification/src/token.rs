//! The lexical token model: leaf tokens and delimited groups, together
//! with their mathematical views.

use vstd::prelude::*;

verus! {

broadcast use vstd::std_specs::vec::group_vec_axioms, vstd::seq::group_seq_axioms;

/// The delimiter kind of a delimited group.
#[derive(Clone, Copy, PartialEq, Eq, Structural, Debug)]
pub enum Delim {
    Paren,
    Brace,
    Bracket,
}

/// A literal leaf token, as classified by the upstream tokenizer.
pub enum Lit {
    /// A boolean literal, `true` or `false`.
    Bool(bool),
    /// An unsigned integer literal; the flag is `true` when the literal
    /// carries a type suffix.
    Int(u64, bool),
    /// Any other literal (string, character, ...), carried verbatim as text.
    Other(String),
}

/// One lexical token: a leaf (identifier, punctuation, literal) or a
/// delimited group wrapping a nested token sequence. Delimiters are
/// balanced by construction: a group owns its whole inner sequence.
pub enum Token {
    Ident(String),
    Punct(char),
    Literal(Lit),
    Group(Delim, Vec<Token>),
}

/// The mathematical view of a literal token.
pub enum LitView {
    Bool(bool),
    Int(u64, bool),
    Other(Seq<char>),
}

/// The mathematical view of a token: strings become character sequences
/// and group contents become sequences of token views.
pub enum TokenView {
    Ident(Seq<char>),
    Punct(char),
    Literal(LitView),
    Group(Delim, Seq<TokenView>),
}

impl View for Lit {
    type V = LitView;

    open spec fn view(&self) -> LitView {
        match self {
            Lit::Bool(b) => LitView::Bool(*b),
            Lit::Int(n, suffixed) => LitView::Int(*n, *suffixed),
            Lit::Other(text) => LitView::Other(text@),
        }
    }
}

/// The view of one token.
pub open spec fn token_view(t: Token) -> TokenView
    decreases t,
{
    match t {
        Token::Ident(name) => TokenView::Ident(name@),
        Token::Punct(c) => TokenView::Punct(c),
        Token::Literal(l) => TokenView::Literal(l@),
        Token::Group(delim, inner) => TokenView::Group(delim, views_of(inner@)),
    }
}

/// The view of a token sequence, elementwise.
pub open spec fn views_of(tokens: Seq<Token>) -> Seq<TokenView>
    decreases tokens,
{
    if tokens.len() == 0 {
        Seq::empty()
    } else {
        views_of(tokens.drop_last()).push(token_view(tokens.last()))
    }
}

/// `views_of` is the elementwise image of `token_view`.
pub broadcast proof fn lemma_views_of(tokens: Seq<Token>)
    ensures
        #[trigger] views_of(tokens).len() == tokens.len(),
        forall|i: int| 0 <= i < tokens.len() ==> views_of(tokens)[i] == token_view(tokens[i]),
    decreases tokens,
{
    if tokens.len() > 0 {
        lemma_views_of(tokens.drop_last());
    }
}

impl View for Token {
    type V = TokenView;

    open spec fn view(&self) -> TokenView {
        token_view(*self)
    }
}

/// An owned copy of one token, equal to the original under the view.
#[verifier::loop_isolation(false)]
pub fn copy_token(t: &Token) -> (r: Token)
    ensures
        r@ == t@,
    decreases *t,
{
    match t {
        Token::Ident(name) => Token::Ident(name.clone()),
        Token::Punct(c) => Token::Punct(*c),
        Token::Literal(Lit::Bool(b)) => Token::Literal(Lit::Bool(*b)),
        Token::Literal(Lit::Int(n, suffixed)) => Token::Literal(Lit::Int(*n, *suffixed)),
        Token::Literal(Lit::Other(text)) => Token::Literal(Lit::Other(text.clone())),
        Token::Group(delim, inner) => {
            let mut copied: Vec<Token> = Vec::new();
            let mut i: usize = 0;
            while i < inner.len()
                invariant
                    i <= inner.len(),
                    copied@.len() == i as nat,
                    forall|j: int| 0 <= j < i ==> copied@[j]@ == inner@[j]@,
                decreases inner.len() - i,
            {
                let c = copy_token(&inner[i]);
                copied.push(c);
                i = i + 1;
            }
            let r = Token::Group(*delim, copied);
            proof {
                lemma_views_of(copied@);
                lemma_views_of(inner@);
                assert(views_of(copied@) =~= views_of(inner@));
            }
            r
        },
    }
}

} // verus!
