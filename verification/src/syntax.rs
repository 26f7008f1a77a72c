//! Rust's own grammar, as far as the language embeds it: identifiers, types,
//! patterns, expressions, generic parameters, paths, visibilities and
//! attributes. Each question is put to `syn`, on the text of the fragment.
//!
//! `syn` has the text lexed by `proc-macro2`, which has two lexers: its own,
//! and the compiler's where the process is a macro expansion. Every question
//! here is asked with `proc-macro2`'s own lexer in force, so that the answer
//! is the same in every process: it depends on the text alone. The names
//! below stand for these answers.

use crate::token::{render, text_of, Token};
use vstd::prelude::*;

verus! {

/// Whether `text` is one Rust identifier that is no keyword.
pub uninterp spec fn is_identifier(text: Seq<char>) -> bool;

/// Whether `text` is one Rust type.
pub uninterp spec fn is_type(text: Seq<char>) -> bool;

/// Whether `text` is one Rust pattern, alternatives with `|` included.
pub uninterp spec fn is_pattern(text: Seq<char>) -> bool;

/// Whether `text` is one Rust expression.
pub uninterp spec fn is_expression(text: Seq<char>) -> bool;

/// Whether `text` is a list of generic parameters in angle brackets.
pub uninterp spec fn is_generics(text: Seq<char>) -> bool;

/// Whether `text` is one Rust path.
pub uninterp spec fn is_path(text: Seq<char>) -> bool;

/// Whether `text` is a visibility qualifier; the empty text is one.
pub uninterp spec fn is_visibility(text: Seq<char>) -> bool;

/// Whether `text` is a run of outer attributes; the empty text is one.
pub uninterp spec fn is_attributes(text: Seq<char>) -> bool;

/// `proc_macro2::fallback::force`: from this call on, `proc-macro2` lexes with
/// its own lexer, also where the process is a macro expansion. Nothing is
/// claimed of the call here. It is made before every question, so that the
/// answers depend on the text alone.
#[verifier::external_body]
fn use_own_lexer() {
    proc_macro2::fallback::force()
}

/// `syn::parse_str::<syn::Ident>`: succeeds exactly when the whole text is
/// one identifier other than `_` and the keywords.
/// With `proc-macro2`'s own lexer in force, the answer depends on the text
/// alone.
#[verifier::external_body]
fn text_is_identifier(text: &str) -> (ok: bool)
    ensures
        ok == is_identifier(text@),
{
    syn::parse_str::<syn::Ident>(text).is_ok()
}

/// `syn::parse_str::<syn::Type>`: succeeds exactly when the whole text parses
/// as one type.
/// With `proc-macro2`'s own lexer in force, the answer depends on the text
/// alone.
#[verifier::external_body]
fn text_is_type(text: &str) -> (ok: bool)
    ensures
        ok == is_type(text@),
{
    syn::parse_str::<syn::Type>(text).is_ok()
}

/// `syn::Pat::parse_multi`, run on a string: succeeds exactly when the whole
/// text parses as one pattern.
/// With `proc-macro2`'s own lexer in force, the answer depends on the text
/// alone.
#[verifier::external_body]
fn text_is_pattern(text: &str) -> (ok: bool)
    ensures
        ok == is_pattern(text@),
{
    syn::parse::Parser::parse_str(syn::Pat::parse_multi, text).is_ok()
}

/// `syn::parse_str::<syn::Expr>`: succeeds exactly when the whole text parses
/// as one expression.
/// With `proc-macro2`'s own lexer in force, the answer depends on the text
/// alone.
#[verifier::external_body]
fn text_is_expression(text: &str) -> (ok: bool)
    ensures
        ok == is_expression(text@),
{
    syn::parse_str::<syn::Expr>(text).is_ok()
}

/// `syn::parse_str::<syn::Generics>`: succeeds exactly when the whole text
/// parses as generic parameters.
/// With `proc-macro2`'s own lexer in force, the answer depends on the text
/// alone.
#[verifier::external_body]
fn text_is_generics(text: &str) -> (ok: bool)
    ensures
        ok == is_generics(text@),
{
    syn::parse_str::<syn::Generics>(text).is_ok()
}

/// `syn::parse_str::<syn::Path>`: succeeds exactly when the whole text parses
/// as one path.
/// With `proc-macro2`'s own lexer in force, the answer depends on the text
/// alone.
#[verifier::external_body]
fn text_is_path(text: &str) -> (ok: bool)
    ensures
        ok == is_path(text@),
{
    syn::parse_str::<syn::Path>(text).is_ok()
}

/// `syn::parse_str::<syn::Visibility>`: succeeds exactly when the whole text
/// parses as a visibility.
/// With `proc-macro2`'s own lexer in force, the answer depends on the text
/// alone.
#[verifier::external_body]
fn text_is_visibility(text: &str) -> (ok: bool)
    ensures
        ok == is_visibility(text@),
{
    syn::parse_str::<syn::Visibility>(text).is_ok()
}

/// `syn::Attribute::parse_outer`, run on a string: succeeds exactly when the
/// whole text parses as outer attributes.
/// With `proc-macro2`'s own lexer in force, the answer depends on the text
/// alone.
#[verifier::external_body]
fn text_is_attributes(text: &str) -> (ok: bool)
    ensures
        ok == is_attributes(text@),
{
    syn::parse::Parser::parse_str(syn::Attribute::parse_outer, text).is_ok()
}

/// Whether `name` can name a state, an input, an output or an enumeration.
pub fn valid_identifier(name: &String) -> (ok: bool)
    ensures
        ok == is_identifier(name@),
{
    use_own_lexer();
    text_is_identifier(name.as_str())
}

/// Whether the tokens spell one type.
pub fn valid_type(tokens: &Vec<Token>) -> (ok: bool)
    ensures
        ok == is_type(text_of(tokens.deep_view())),
{
    use_own_lexer();
    let text = render(tokens);
    text_is_type(text.as_str())
}

/// Whether the tokens spell one pattern.
pub fn valid_pattern(tokens: &Vec<Token>) -> (ok: bool)
    ensures
        ok == is_pattern(text_of(tokens.deep_view())),
{
    use_own_lexer();
    let text = render(tokens);
    text_is_pattern(text.as_str())
}

/// Whether the tokens spell one expression.
pub fn valid_expression(tokens: &Vec<Token>) -> (ok: bool)
    ensures
        ok == is_expression(text_of(tokens.deep_view())),
{
    use_own_lexer();
    let text = render(tokens);
    text_is_expression(text.as_str())
}

/// Whether the tokens spell generic parameters.
pub fn valid_generics(tokens: &Vec<Token>) -> (ok: bool)
    ensures
        ok == is_generics(text_of(tokens.deep_view())),
{
    use_own_lexer();
    let text = render(tokens);
    text_is_generics(text.as_str())
}

/// Whether the tokens spell one path.
pub fn valid_path(tokens: &Vec<Token>) -> (ok: bool)
    ensures
        ok == is_path(text_of(tokens.deep_view())),
{
    use_own_lexer();
    let text = render(tokens);
    text_is_path(text.as_str())
}

/// Whether the tokens spell a visibility qualifier.
pub fn valid_visibility(tokens: &Vec<Token>) -> (ok: bool)
    ensures
        ok == is_visibility(text_of(tokens.deep_view())),
{
    use_own_lexer();
    let text = render(tokens);
    text_is_visibility(text.as_str())
}

/// Whether the tokens spell a run of outer attributes.
pub fn valid_attributes(tokens: &Vec<Token>) -> (ok: bool)
    ensures
        ok == is_attributes(text_of(tokens.deep_view())),
{
    use_own_lexer();
    let text = render(tokens);
    text_is_attributes(text.as_str())
}

} // verus!
