//! The Rust syntax that descriptions embed.
//!
//! Lexing source text into token trees is `proc_macro2`'s work, and whether a fragment is a
//! Rust type, expression or path is `syn`'s judgement.
//!
//! `proc_macro2` lexes with its own lexer outside a procedural macro and with the
//! compiler's inside one. The two normalise identifiers differently and spell a doc
//! comment's literal differently, so what lexing gives is not named: [`tokenize`] promises
//! nothing of its result, and the parser takes the tokens as they come. `syn`'s judgements
//! are named on ASCII text only, where no identifier needs normalising.

use vstd::prelude::*;

use proc_macro2::Delimiter as GroupDelimiter;
use proc_macro2::{LexError, Spacing, TokenStream, TokenTree};

use crate::dsl::token::{ascii_text, Delimiter, Token};

verus! {

#[verifier::external_type_specification]
#[verifier::external_body]
pub struct ExTokenTree(proc_macro2::TokenTree);

/// Whether `syn` parses the whole of `text` as an identifier (one that is not a keyword).
pub uninterp spec fn syn_accepts_ident(text: Seq<char>) -> bool;

/// Whether `syn` parses the whole of `text` as a Rust type.
pub uninterp spec fn syn_accepts_type(text: Seq<char>) -> bool;

/// Whether `syn` parses the whole of `text` as a Rust expression.
pub uninterp spec fn syn_accepts_expr(text: Seq<char>) -> bool;

/// Whether `syn` parses the whole of `text` as a Rust path expression.
pub uninterp spec fn syn_accepts_path(text: Seq<char>) -> bool;

/// `str::parse::<proc_macro2::TokenStream>`, with each token tree converted one for one
/// by [`tree_token`], or the lexer's error message. Nothing is stated of the result: it
/// depends on which lexer `proc_macro2` uses in the process.
#[verifier::external_body]
pub(crate) fn lex(src: &str) -> Result<Vec<Token>, String> {
    let stream: TokenStream = src.parse().map_err(|e: LexError| e.to_string())?;
    Ok(stream.into_iter().map(tree_token).collect())
}

/// One `proc_macro2::TokenTree` as a [`Token`], a group's stream converted tree by tree.
/// It only converts, for the body of [`lex`], and has no contract.
#[verifier::external_body]
fn tree_token(tree: TokenTree) -> Token {
    match tree {
        TokenTree::Ident(i) => Token::Ident(i.to_string()),
        TokenTree::Punct(p) => Token::Punct(p.as_char(), p.spacing() == Spacing::Joint),
        TokenTree::Literal(l) => Token::Literal(l.to_string()),
        TokenTree::Group(g) => Token::Group(match g.delimiter() {
            GroupDelimiter::Parenthesis => Delimiter::Parenthesis,
            GroupDelimiter::Brace => Delimiter::Brace,
            GroupDelimiter::Bracket => Delimiter::Bracket,
            GroupDelimiter::None => Delimiter::Invisible,
        }, g.stream().into_iter().map(tree_token).collect()),
    }
}

/// `syn::parse_str::<syn::Ident>(text).is_ok()`, named on ASCII text.
#[verifier::external_body]
pub(crate) fn accepts_ident(text: &str) -> (b: bool)
    ensures
        ascii_text(text@) ==> b == syn_accepts_ident(text@),
{
    syn::parse_str::<syn::Ident>(text).is_ok()
}

/// `syn::parse_str::<syn::Type>(text).is_ok()`, named on ASCII text.
#[verifier::external_body]
pub(crate) fn accepts_type(text: &str) -> (b: bool)
    ensures
        ascii_text(text@) ==> b == syn_accepts_type(text@),
{
    syn::parse_str::<syn::Type>(text).is_ok()
}

/// `syn::parse_str::<syn::Expr>(text).is_ok()`, named on ASCII text.
#[verifier::external_body]
pub(crate) fn accepts_expr(text: &str) -> (b: bool)
    ensures
        ascii_text(text@) ==> b == syn_accepts_expr(text@),
{
    syn::parse_str::<syn::Expr>(text).is_ok()
}

/// `syn::parse_str::<syn::ExprPath>(text).is_ok()`, named on ASCII text.
#[verifier::external_body]
pub(crate) fn accepts_path(text: &str) -> (b: bool)
    ensures
        ascii_text(text@) ==> b == syn_accepts_path(text@),
{
    syn::parse_str::<syn::ExprPath>(text).is_ok()
}

/// The token trees of the source text `src`, or the lexer's error message, as the lexer
/// that `proc_macro2` uses in this process makes them.
pub fn tokenize(src: &str) -> Result<Vec<Token>, String> {
    lex(src)
}

} // verus!
