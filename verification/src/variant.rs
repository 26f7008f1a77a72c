//! States, inputs and outputs as they are written in a description, and the
//! alphabets that are derived from them.

use crate::error::{
    error_at, fault_of, judge, outcome, reading, verdict, CompileError, ErrorKind,
};
use crate::syntax::{
    is_expression, is_identifier, is_pattern, is_type, valid_expression, valid_identifier,
    valid_pattern, valid_type,
};
use crate::token::{
    copy_optional, copy_range, copy_tokens, find_close, find_mark, find_top, group_end, has_open,
    has_word, ident_at, open_at, push_deep, push_token, push_tokens, text_of, word_at, Delimiter,
    Mark, Tok, Token,
};
use vstd::prelude::*;
use vstd::std_specs::cmp::PartialEqSpecImpl;

verus! {

/// A named member of an alphabet as one occurrence in the source shows it:
/// the identifier, where it stands, and the data clause if it has one. The
/// clause holds an optional type, a binding pattern and an optional guard.
#[derive(Clone, Debug)]
pub struct Variant {
    pub ident: String,
    /// Index of the identifier's token.
    pub span: usize,
    pub field: Option<(Option<Vec<Token>>, Vec<Token>, Option<Vec<Token>>)>,
}

/// Mathematical model of a data clause: type, pattern, guard.
pub type FieldView = (Option<Seq<Tok>>, Seq<Tok>, Option<Seq<Tok>>);

/// Mathematical model of a [`Variant`].
pub struct VariantView {
    pub ident: Seq<char>,
    pub span: usize,
    pub field: Option<FieldView>,
}

impl DeepView for Variant {
    type V = VariantView;

    open spec fn deep_view(&self) -> VariantView {
        VariantView { ident: self.ident@, span: self.span, field: self.field.deep_view() }
    }
}

impl View for Variant {
    type V = VariantView;

    open spec fn view(&self) -> VariantView {
        self.deep_view()
    }
}

/// Two occurrences are equal when their identifiers are: the identifier is
/// the key of the alphabet, whatever data the occurrence carries.
impl PartialEq for Variant {
    fn eq(&self, other: &Self) -> (equal: bool) {
        self.ident == other.ident
    }
}

impl Eq for Variant {

}

impl PartialEqSpecImpl for Variant {
    open spec fn obeys_eq_spec() -> bool {
        true
    }

    open spec fn eq_spec(&self, other: &Self) -> bool {
        self.ident@ == other.ident@
    }
}

/// The target of a transition: a variant whose clause holds the expression
/// that builds the new value in place of a guard, or nothing, which means
/// "stay": the state the transition started from.
#[derive(Clone, Debug, PartialEq, Eq)]
pub struct Final(pub Option<Variant>);

impl DeepView for Final {
    type V = Option<VariantView>;

    open spec fn deep_view(&self) -> Option<VariantView> {
        self.0.deep_view()
    }
}

impl View for Final {
    type V = Option<VariantView>;

    open spec fn view(&self) -> Option<VariantView> {
        self.deep_view()
    }
}

/// One member of an alphabet: an identifier, and the type of the data it
/// carries if it carries any.
#[derive(Clone, Debug)]
pub struct Member {
    pub ident: String,
    pub ty: Option<Vec<Token>>,
}

/// Mathematical model of a [`Member`].
pub struct MemberView {
    pub ident: Seq<char>,
    pub ty: Option<Seq<Tok>>,
}

impl DeepView for Member {
    type V = MemberView;

    open spec fn deep_view(&self) -> MemberView {
        MemberView { ident: self.ident@, ty: self.ty.deep_view() }
    }
}

impl View for Member {
    type V = MemberView;

    open spec fn view(&self) -> MemberView {
        self.deep_view()
    }
}

/// The type that the occurrence itself declares, if it declares one.
pub open spec fn own_type(v: VariantView) -> Option<Seq<Tok>> {
    match v.field {
        Some((ty, _, _)) => ty,
        None => None,
    }
}

/// The guard that the occurrence carries, if it carries one.
pub open spec fn guard_of(v: VariantView) -> Option<Seq<Tok>> {
    match v.field {
        Some((_, _, guard)) => guard,
        None => None,
    }
}

/// The type declared by the first occurrence of `ident` from index `from`
/// on that declares one.
pub open spec fn declared_type(list: Seq<VariantView>, ident: Seq<char>, from: int) -> Option<
    Seq<Tok>,
>
    decreases list.len() - from,
{
    if from < 0 || from >= list.len() {
        None
    } else if list[from].ident == ident && own_type(list[from]) is Some {
        own_type(list[from])
    } else {
        declared_type(list, ident, from + 1)
    }
}

/// The type of the data that `of` carries: none if it carries no data; its
/// own type if it declares one; else the type that the first occurrence of
/// the same identifier in `list` declares.
pub open spec fn type_of(of: VariantView, list: Seq<VariantView>) -> Option<Seq<Tok>> {
    if of.field is None {
        None
    } else if own_type(of) is Some {
        own_type(of)
    } else {
        declared_type(list, of.ident, 0)
    }
}

/// Index of the first occurrence of `ident` from index `from` on that
/// carries data.
pub open spec fn carrier(list: Seq<VariantView>, ident: Seq<char>, from: int) -> Option<int>
    decreases list.len() - from,
{
    if from < 0 || from >= list.len() {
        None
    } else if list[from].ident == ident && list[from].field is Some {
        Some(from)
    } else {
        carrier(list, ident, from + 1)
    }
}

/// No occurrence before index `i` has the identifier of occurrence `i`.
pub open spec fn is_first(list: Seq<VariantView>, i: int) -> bool {
    forall|j: int| 0 <= j < i ==> (#[trigger] list[j]).ident != list[i].ident
}

/// The alphabet member for `ident`, if there is one. The member carries
/// data if some occurrence of `ident` does; its type is then the one found
/// for the first such occurrence. There is no member if some occurrence
/// carries data and none declares the type.
pub open spec fn member_for(list: Seq<VariantView>, ident: Seq<char>) -> Option<MemberView> {
    match carrier(list, ident, 0) {
        None => Some(MemberView { ident, ty: None }),
        Some(k) => match type_of(list[k], list) {
            Some(t) => Some(MemberView { ident, ty: Some(t) }),
            None => None,
        },
    }
}

/// The alphabet member for the identifier that occurs first at index `i`.
/// Where its type is never specified, that is reported at this first
/// occurrence of the identifier.
pub open spec fn member_of(list: Seq<VariantView>, i: int) -> Result<MemberView, CompileError> {
    match member_for(list, list[i].ident) {
        Some(member) => Ok(member),
        None => Err(error_at(ErrorKind::TypeNeverSpecified, list[i].span as int)),
    }
}

/// The members for the identifiers that occur first at index `from` or
/// later, in the order of those first occurrences.
pub open spec fn alphabet_from(list: Seq<VariantView>, from: int) -> Result<
    Seq<MemberView>,
    CompileError,
>
    decreases list.len() - from,
{
    if from < 0 || from >= list.len() {
        Ok(Seq::empty())
    } else if !is_first(list, from) {
        alphabet_from(list, from + 1)
    } else {
        match member_of(list, from) {
            Err(e) => Err(e),
            Ok(member) => match alphabet_from(list, from + 1) {
                Err(e) => Err(e),
                Ok(rest) => Ok(seq![member] + rest),
            },
        }
    }
}

/// The alphabet of a list of occurrences: one member for each identifier,
/// in the order in which the identifiers first occur.
pub open spec fn alphabet_of(list: Seq<VariantView>) -> Result<Seq<MemberView>, CompileError> {
    alphabet_from(list, 0)
}

/// How a member is declared in an enumeration: its identifier, followed by
/// its type in parentheses if it carries data.
pub open spec fn member_tokens(m: MemberView) -> Seq<Tok> {
    match m.ty {
        None => seq![Tok::Ident(m.ident)],
        Some(t) => seq![Tok::Ident(m.ident), Tok::Open(Delimiter::Parenthesis)] + t
            + seq![Tok::Close(Delimiter::Parenthesis)],
    }
}

/// The declarations of all members.
pub open spec fn members_tokens(members: Seq<MemberView>) -> Seq<Seq<Tok>> {
    Seq::new(members.len(), |i: int| member_tokens(members[i]))
}

/// How an occurrence is matched: its identifier, followed by its pattern in
/// parentheses if it carries data.
pub open spec fn pattern_tokens(v: VariantView) -> Seq<Tok> {
    match v.field {
        None => seq![Tok::Ident(v.ident)],
        Some((_, pattern, _)) => seq![Tok::Ident(v.ident), Tok::Open(Delimiter::Parenthesis)]
            + pattern + seq![Tok::Close(Delimiter::Parenthesis)],
    }
}

/// How an occurrence is matched with its guard: the pattern, then `if` and
/// the guard if there is one.
pub open spec fn match_tokens(v: VariantView) -> Seq<Tok> {
    match guard_of(v) {
        None => pattern_tokens(v),
        Some(g) => pattern_tokens(v) + seq![Tok::Ident("if"@)] + g,
    }
}

/// How a target is built: its identifier, followed in parentheses by the
/// expression of its clause if it has a clause.
pub open spec fn value_tokens(v: VariantView) -> Seq<Tok> {
    match v.field {
        None => seq![Tok::Ident(v.ident)],
        Some((_, _, expr)) => seq![Tok::Ident(v.ident), Tok::Open(Delimiter::Parenthesis)] + (
        match expr {
            Some(e) => e,
            None => Seq::empty(),
        }) + seq![Tok::Close(Delimiter::Parenthesis)],
    }
}

/// The clause of a state or an input, read from the tokens in `lo..hi`:
/// what stands before the first top-level `=>` is the type, what follows up
/// to the first top-level `if` is the pattern, the rest is the guard.
pub open spec fn variant_data(ts: Seq<Tok>, lo: int, hi: int) -> FieldView {
    let (ty, start) = match find_mark(ts, lo, hi, Mark::Arrow) {
        Some(k) => (
            if k == lo {
                None
            } else {
                Some(ts.subrange(lo, k))
            },
            k + 2,
        ),
        None => (None, lo),
    };
    match find_mark(ts, start, hi, Mark::If) {
        Some(k) => (ty, ts.subrange(start, k), Some(ts.subrange(k + 1, hi))),
        None => (ty, ts.subrange(start, hi), None),
    }
}

/// The pattern that a target's clause carries: `_`.
pub open spec fn wildcard() -> Seq<Tok> {
    seq![Tok::Ident("_"@)]
}

/// The clause of a target, read from the tokens in `lo..hi`: what stands
/// before the first top-level `=>` is the type, the rest is the expression.
pub open spec fn final_data(ts: Seq<Tok>, lo: int, hi: int) -> FieldView {
    match find_mark(ts, lo, hi, Mark::Arrow) {
        Some(k) => (
            if k == lo {
                None
            } else {
                Some(ts.subrange(lo, k))
            },
            wildcard(),
            Some(ts.subrange(k + 2, hi)),
        ),
        None => (None, wildcard(), Some(ts.subrange(lo, hi))),
    }
}

/// The clause holds what it must: a pattern of at least one token and, if
/// it has a guard or an expression, one of at least one token.
pub open spec fn clause_complete(field: FieldView) -> bool {
    field.1.len() > 0 && match field.2 {
        Some(rest) => rest.len() > 0,
        None => true,
    }
}

/// The clause in `lo..hi`, read as that of a target or as that of a state
/// or an input.
pub open spec fn clause_data(ts: Seq<Tok>, lo: int, hi: int, target: bool) -> FieldView {
    if target {
        final_data(ts, lo, hi)
    } else {
        variant_data(ts, lo, hi)
    }
}

/// An identifier at `pos` with its optional clause in parentheses, and the
/// position after it. `target` says how the clause is read. A clause that
/// is never closed, or that lacks its pattern, its guard after `if`, or its
/// expression, is an error.
pub open spec fn named_at(ts: Seq<Tok>, pos: int, hi: int, target: bool) -> Result<
    (VariantView, int),
    CompileError,
> {
    if !ident_at(ts, pos, hi) {
        Err(error_at(ErrorKind::ExpectedIdent, pos))
    } else if open_at(ts, pos + 1, hi, Delimiter::Parenthesis) {
        match group_end(ts, pos + 1, hi) {
            Some(c) => if clause_complete(clause_data(ts, pos + 2, c, target)) {
                Ok(
                    (
                        VariantView {
                            ident: ts[pos]->Ident_0,
                            span: pos as usize,
                            field: Some(clause_data(ts, pos + 2, c, target)),
                        },
                        c + 1,
                    ),
                )
            } else {
                Err(error_at(ErrorKind::MalformedData, pos))
            },
            None => Err(error_at(ErrorKind::Unterminated, pos + 1)),
        }
    } else {
        Ok((VariantView { ident: ts[pos]->Ident_0, span: pos as usize, field: None }, pos + 1))
    }
}

/// A state or an input at `pos`, and the position after it.
pub open spec fn variant_at(ts: Seq<Tok>, pos: int, hi: int) -> Result<
    (VariantView, int),
    CompileError,
> {
    named_at(ts, pos, hi, false)
}

/// A target at `pos`, and the position after it: `_`, or an identifier with
/// its optional clause.
pub open spec fn final_at(ts: Seq<Tok>, pos: int, hi: int) -> Result<
    (Option<VariantView>, int),
    CompileError,
> {
    if word_at(ts, pos, hi, "_"@) {
        Ok((None, pos + 1))
    } else {
        match named_at(ts, pos, hi, true) {
            Ok((v, next)) => Ok((Some(v), next)),
            Err(e) => Err(e),
        }
    }
}

/// The tokens are a type, if there are any.
pub open spec fn type_ok(ty: Option<Seq<Tok>>) -> bool {
    match ty {
        Some(t) => is_type(text_of(t)),
        None => true,
    }
}

/// The tokens are an expression, if there are any.
pub open spec fn expression_ok(expr: Option<Seq<Tok>>) -> bool {
    match expr {
        Some(e) => is_expression(text_of(e)),
        None => true,
    }
}

/// The clause of a state or an input is well formed: the type is a type,
/// the pattern a pattern and the guard an expression.
pub open spec fn clause_ok(field: Option<FieldView>) -> bool {
    match field {
        Some((ty, pattern, guard)) => type_ok(ty) && is_pattern(text_of(pattern))
            && expression_ok(guard),
        None => true,
    }
}

/// The clause of a target is well formed: the type is a type and the
/// expression an expression.
pub open spec fn target_clause_ok(field: Option<FieldView>) -> bool {
    match field {
        Some((ty, _, expr)) => type_ok(ty) && expression_ok(expr),
        None => true,
    }
}

/// What is wrong with a state or an input, if anything is: its name must be
/// an identifier and its clause well formed.
pub open spec fn variant_fault(v: VariantView) -> Option<CompileError> {
    fault_of(v.span, is_identifier(v.ident), clause_ok(v.field), ErrorKind::MalformedData)
}

/// What is wrong with a target, if anything is: unless it is "stay", its
/// name must be an identifier and its clause well formed.
pub open spec fn final_fault(f: Option<VariantView>) -> Option<CompileError> {
    match f {
        None => None,
        Some(v) => fault_of(
            v.span,
            is_identifier(v.ident),
            target_clause_ok(v.field),
            ErrorKind::MalformedData,
        ),
    }
}

/// What has been read, unless something is wrong with it: then the fault.
pub open spec fn unless<T>(read: T, fault: Option<CompileError>) -> Result<T, CompileError> {
    match fault {
        Some(e) => Err(e),
        None => Ok(read),
    }
}

/// A state or an input at `pos` whose Rust fragments are what they must be,
/// and the position after it. What is wrong with the shape is reported
/// first, then what is wrong with the fragments.
pub open spec fn variant_parsed(ts: Seq<Tok>, pos: int, hi: int) -> Result<
    (VariantView, int),
    CompileError,
> {
    match variant_at(ts, pos, hi) {
        Ok((v, next)) => unless((v, next), variant_fault(v)),
        Err(e) => Err(e),
    }
}

/// A target at `pos` whose Rust fragments are what they must be, and the
/// position after it. What is wrong with the shape is reported first, then
/// what is wrong with the fragments.
pub open spec fn final_parsed(ts: Seq<Tok>, pos: int, hi: int) -> Result<
    (Option<VariantView>, int),
    CompileError,
> {
    match final_at(ts, pos, hi) {
        Ok((target, next)) => unless((target, next), final_fault(target)),
        Err(e) => Err(e),
    }
}

/// Whether the tokens are a type, if there are any.
fn optional_type(ty: &Option<Vec<Token>>) -> (ok: bool)
    ensures
        ok == type_ok(ty.deep_view()),
{
    match ty {
        Some(t) => valid_type(t),
        None => true,
    }
}

/// Whether the tokens are an expression, if there are any.
fn optional_expression(expr: &Option<Vec<Token>>) -> (ok: bool)
    ensures
        ok == expression_ok(expr.deep_view()),
{
    match expr {
        Some(e) => valid_expression(e),
        None => true,
    }
}

/// Reads the clause of a state or an input from `lo..hi`.
fn read_variant_data(tokens: &Vec<Token>, lo: usize, hi: usize) -> (field: (
    Option<Vec<Token>>,
    Vec<Token>,
    Option<Vec<Token>>,
))
    requires
        lo <= hi <= tokens.len(),
    ensures
        field.deep_view() == variant_data(tokens.deep_view(), lo as int, hi as int),
{
    let (ty, start) = match find_top(tokens, lo, hi, Mark::Arrow) {
        Some(k) => (
            if k == lo {
                None
            } else {
                Some(copy_range(tokens, lo, k))
            },
            k + 2,
        ),
        None => (None, lo),
    };
    match find_top(tokens, start, hi, Mark::If) {
        Some(k) => (ty, copy_range(tokens, start, k), Some(copy_range(tokens, k + 1, hi))),
        None => (ty, copy_range(tokens, start, hi), None),
    }
}

/// Reads the clause of a target from `lo..hi`.
fn read_final_data(tokens: &Vec<Token>, lo: usize, hi: usize) -> (field: (
    Option<Vec<Token>>,
    Vec<Token>,
    Option<Vec<Token>>,
))
    requires
        lo <= hi <= tokens.len(),
    ensures
        field.deep_view() == final_data(tokens.deep_view(), lo as int, hi as int),
{
    let mut wild: Vec<Token> = Vec::new();
    push_token(&mut wild, Token::word("_"));
    match find_top(tokens, lo, hi, Mark::Arrow) {
        Some(k) => (
            if k == lo {
                None
            } else {
                Some(copy_range(tokens, lo, k))
            },
            wild,
            Some(copy_range(tokens, k + 2, hi)),
        ),
        None => (None, wild, Some(copy_range(tokens, lo, hi))),
    }
}

/// Reads an identifier with its optional clause at `pos`.
fn read_named(tokens: &Vec<Token>, pos: usize, hi: usize, target: bool) -> (r: Result<
    (Variant, usize),
    CompileError,
>)
    ensures
        reading(r) == named_at(tokens.deep_view(), pos as int, hi as int, target),
        r matches Ok((_, next)) ==> pos < next <= hi,
{
    if hi > tokens.len() || pos >= hi {
        return Err(CompileError { kind: ErrorKind::ExpectedIdent, position: pos });
    }
    let ident = match &tokens[pos] {
        Token::Ident(s) => s.clone(),
        _ => { return Err(CompileError { kind: ErrorKind::ExpectedIdent, position: pos }); },
    };
    if has_open(tokens, pos + 1, hi, Delimiter::Parenthesis) {
        match find_close(tokens, pos + 1, hi) {
            Some(c) => {
                let field = if target {
                    read_final_data(tokens, pos + 2, c)
                } else {
                    read_variant_data(tokens, pos + 2, c)
                };
                let complete = field.1.len() > 0 && match &field.2 {
                    Some(rest) => rest.len() > 0,
                    None => true,
                };
                if complete {
                    Ok((Variant { ident, span: pos, field: Some(field) }, c + 1))
                } else {
                    Err(CompileError { kind: ErrorKind::MalformedData, position: pos })
                }
            },
            None => Err(CompileError { kind: ErrorKind::Unterminated, position: pos + 1 }),
        }
    } else {
        Ok((Variant { ident, span: pos, field: None }, pos + 1))
    }
}

impl Variant {
    /// Reads the shape of a state or an input at `pos`, looking no further
    /// than `hi`: an identifier, then optionally a clause in parentheses,
    /// split into type, pattern and guard. Returns the variant and the
    /// position after it.
    pub fn read(tokens: &Vec<Token>, pos: usize, hi: usize) -> (r: Result<
        (Variant, usize),
        CompileError,
    >)
        ensures
            reading(r) == variant_at(tokens.deep_view(), pos as int, hi as int),
            r matches Ok((_, next)) ==> pos < next <= hi,
    {
        read_named(tokens, pos, hi, false)
    }

    /// Parses a state or an input at `pos`, looking no further than `hi`:
    /// reads its shape, then checks its name and the type, pattern and
    /// guard of its clause. Returns the variant and the position after it.
    pub fn parse(tokens: &Vec<Token>, pos: usize, hi: usize) -> (r: Result<
        (Variant, usize),
        CompileError,
    >)
        ensures
            reading(r) == variant_parsed(tokens.deep_view(), pos as int, hi as int),
            r matches Ok((_, next)) ==> pos < next <= hi,
    {
        match Variant::read(tokens, pos, hi) {
            Err(e) => Err(e),
            Ok((v, next)) => match v.check() {
                Err(e) => Err(e),
                Ok(()) => Ok((v, next)),
            },
        }
    }

    /// An independent copy.
    pub fn duplicate(&self) -> (copy: Variant)
        ensures
            copy@ == self@,
    {
        let field = match &self.field {
            None => None,
            Some((ty, pattern, guard)) => Some(
                (copy_optional(ty), copy_tokens(pattern), copy_optional(guard)),
            ),
        };
        Variant { ident: self.ident.clone(), span: self.span, field }
    }

    /// The tokens that match this occurrence together with its guard:
    /// `Ident`, `Ident(pattern)` or `Ident(pattern) if guard`.
    pub fn match_on(&self) -> (out: Vec<Token>)
        ensures
            out.deep_view() == match_tokens(self@),
    {
        let (mut out, guard) = self.separate();
        match guard {
            None => {},
            Some(g) => {
                push_token(&mut out, Token::word("if"));
                push_tokens(&mut out, &g);
            },
        }
        out
    }

    /// The tokens that match this occurrence, `Ident` or `Ident(pattern)`,
    /// and apart from them its guard.
    pub fn separate(&self) -> (out: (Vec<Token>, Option<Vec<Token>>))
        ensures
            out.0.deep_view() == pattern_tokens(self@),
            out.1.deep_view() == guard_of(self@),
    {
        let mut tokens: Vec<Token> = Vec::new();
        push_token(&mut tokens, Token::Ident(self.ident.clone()));
        match &self.field {
            None => {
                (tokens, None)
            },
            Some((_, pattern, guard)) => {
                push_token(&mut tokens, Token::Open(Delimiter::Parenthesis));
                push_tokens(&mut tokens, pattern);
                push_token(&mut tokens, Token::Close(Delimiter::Parenthesis));
                (tokens, copy_optional(guard))
            },
        }
    }

    /// The tokens that build this value: `Ident`, or `Ident(expression)`
    /// with the expression of the clause.
    pub fn value(&self) -> (out: Vec<Token>)
        ensures
            out.deep_view() == value_tokens(self@),
    {
        let mut tokens: Vec<Token> = Vec::new();
        push_token(&mut tokens, Token::Ident(self.ident.clone()));
        match &self.field {
            None => {},
            Some((_, _, expr)) => {
                push_token(&mut tokens, Token::Open(Delimiter::Parenthesis));
                match expr {
                    Some(e) => {
                        push_tokens(&mut tokens, e);
                    },
                    None => {},
                }
                push_token(&mut tokens, Token::Close(Delimiter::Parenthesis));
            },
        }
        tokens
    }

    /// Checks the Rust fragments of a state or an input: the name, and the
    /// type, pattern and guard of its clause.
    pub fn check(&self) -> (r: Result<(), CompileError>)
        ensures
            r == verdict(variant_fault(self@)),
    {
        let clause = match &self.field {
            None => true,
            Some((ty, pattern, guard)) => optional_type(ty) && valid_pattern(pattern)
                && optional_expression(guard),
        };
        judge(self.span, valid_identifier(&self.ident), clause, ErrorKind::MalformedData)
    }
}

impl Final {
    /// Parses a target at `pos`, looking no further than `hi`: reads its
    /// shape, then checks its name and the type and expression of its
    /// clause. Returns the target and the position after it.
    pub fn parse(tokens: &Vec<Token>, pos: usize, hi: usize) -> (r: Result<
        (Final, usize),
        CompileError,
    >)
        ensures
            reading(r) == final_parsed(tokens.deep_view(), pos as int, hi as int),
            r matches Ok((_, next)) ==> pos < next <= hi,
    {
        match Final::read(tokens, pos, hi) {
            Err(e) => Err(e),
            Ok((target, next)) => match target.check() {
                Err(e) => Err(e),
                Ok(()) => Ok((target, next)),
            },
        }
    }

    /// Reads the shape of a target at `pos`, looking no further than `hi`:
    /// `_`, or an identifier with an optional clause in parentheses, split
    /// into type and expression. Returns the target and the position after
    /// it.
    pub fn read(tokens: &Vec<Token>, pos: usize, hi: usize) -> (r: Result<
        (Final, usize),
        CompileError,
    >)
        ensures
            reading(r) == final_at(tokens.deep_view(), pos as int, hi as int),
            r matches Ok((_, next)) ==> pos < next <= hi,
    {
        if has_word(tokens, pos, hi, "_") {
            Ok((Final(None), pos + 1))
        } else {
            match read_named(tokens, pos, hi, true) {
                Ok((v, next)) => Ok((Final(Some(v)), next)),
                Err(e) => Err(e),
            }
        }
    }

    /// Checks the Rust fragments of a target: the name, and the type and
    /// expression of its clause.
    pub fn check(&self) -> (r: Result<(), CompileError>)
        ensures
            r == verdict(final_fault(self@)),
    {
        match &self.0 {
            None => Ok(()),
            Some(v) => {
                let clause = match &v.field {
                    None => true,
                    Some((ty, _, expr)) => optional_type(ty) && optional_expression(expr),
                };
                judge(v.span, valid_identifier(&v.ident), clause, ErrorKind::MalformedData)
            },
        }
    }

    /// The tokens that build the target, unless it is "stay": `Ident`, or
    /// `Ident(expression)`.
    pub fn reduce(&self) -> (out: Option<Vec<Token>>)
        ensures
            out.deep_view() == match self@ {
                Some(v) => Some(value_tokens(v)),
                None => None,
            },
    {
        match &self.0 {
            Some(v) => Some(v.value()),
            None => None,
        }
    }

    /// The variant that the target names, if it names one.
    pub fn variant(self) -> (v: Option<Variant>)
        ensures
            v.deep_view() == self@,
    {
        self.0
    }
}

/// Finds the type of the data that `of` carries: its own if it declares
/// one, else the one that the first occurrence of the same identifier in
/// `list` declares. An occurrence without data has no type.
pub fn find_type(of: &Variant, list: &[Variant]) -> (ty: Option<Vec<Token>>)
    ensures
        ty.deep_view() == type_of(of@, list.deep_view()),
{
    match &of.field {
        None => None,
        Some((Some(t), _, _)) => Some(copy_tokens(t)),
        Some((None, _, _)) => {
            let ghost occurrences = list.deep_view();
            let mut i: usize = 0;
            while i < list.len()
                invariant
                    i <= list.len(),
                    occurrences == list.deep_view(),
                    of@.field is Some,
                    own_type(of@) is None,
                    declared_type(occurrences, of.ident@, 0) == declared_type(
                        occurrences,
                        of.ident@,
                        i as int,
                    ),
                decreases list.len() - i,
            {
                if list[i].ident == of.ident {
                    match &list[i].field {
                        Some((Some(t), _, _)) => {
                            return Some(copy_tokens(t));
                        },
                        _ => {},
                    }
                }
                i += 1;
            }
            None
        },
    }
}

/// Whether no occurrence before index `i` has the identifier of
/// occurrence `i`.
fn occurs_first(list: &[Variant], i: usize) -> (first: bool)
    requires
        i < list.len(),
    ensures
        first == is_first(list.deep_view(), i as int),
{
    let ghost occurrences = list.deep_view();
    let mut j: usize = 0;
    while j < i
        invariant
            j <= i < list.len(),
            occurrences == list.deep_view(),
            forall|k: int|
                0 <= k < j ==> (#[trigger] occurrences[k]).ident != occurrences[i as int].ident,
        decreases i - j,
    {
        assert(occurrences[j as int] == list[j as int]@);
        if list[j] == list[i] {
            return false;
        }
        j += 1;
    }
    true
}

/// Builds the alphabet member for the identifier of occurrence `i`.
fn build_member(list: &[Variant], i: usize) -> (r: Result<Member, CompileError>)
    requires
        i < list.len(),
    ensures
        outcome(r) == member_of(list.deep_view(), i as int),
{
    let ghost occurrences = list.deep_view();
    let ident = list[i].ident.clone();
    let span = list[i].span;
    let mut k: usize = 0;
    while k < list.len()
        invariant
            k <= list.len(),
            i < list.len(),
            occurrences == list.deep_view(),
            ident@ == occurrences[i as int].ident,
            span == occurrences[i as int].span,
            carrier(occurrences, ident@, 0) == carrier(occurrences, ident@, k as int),
        decreases list.len() - k,
    {
        if list[k].ident == ident && list[k].field.is_some() {
            return match find_type(&list[k], list) {
                Some(t) => Ok(Member { ident, ty: Some(t) }),
                None => Err(
                    CompileError { kind: ErrorKind::TypeNeverSpecified, position: span },
                ),
            };
        }
        k += 1;
    }
    Ok(Member { ident, ty: None })
}

/// Builds the alphabet of a list of occurrences: one member for each
/// identifier, however often it occurs, in the order in which the
/// identifiers first occur. A member carries data if some occurrence of its
/// identifier does; it is an error if no occurrence declares the type.
pub fn alphabet(list: &[Variant]) -> (r: Result<Vec<Member>, CompileError>)
    ensures
        outcome(r) == alphabet_of(list.deep_view()),
{
    let ghost occurrences = list.deep_view();
    let mut members: Vec<Member> = Vec::new();
    let mut i: usize = 0;
    while i < list.len()
        invariant
            i <= list.len(),
            occurrences == list.deep_view(),
            alphabet_from(occurrences, 0) == match alphabet_from(occurrences, i as int) {
                Err(e) => Err::<Seq<MemberView>, CompileError>(e),
                Ok(rest) => Ok(members.deep_view() + rest),
            },
        decreases list.len() - i,
    {
        if occurs_first(list, i) {
            let member = match build_member(list, i) {
                Ok(member) => member,
                Err(e) => { return Err(e); },
            };
            let ghost before = members.deep_view();
            push_deep(&mut members, member);
            proof {
                match alphabet_from(occurrences, i + 1) {
                    Ok(rest) => {
                        assert(before + (seq![member@] + rest) =~= members.deep_view() + rest);
                    },
                    Err(_) => {},
                }
            }
        }
        i += 1;
    }
    Ok(members)
}

/// `members` are the member declarations of the alphabet of `list`.
pub open spec fn declares(members: Vec<Vec<Token>>, list: Seq<VariantView>) -> bool {
    alphabet_of(list) matches Ok(alphabet) && members.deep_view() == members_tokens(alphabet)
}

/// Builds the member declarations of an enumeration from the occurrences
/// of its members, `Ident` for a member without data and `Ident(Type)` for
/// one with data, and returns what `f` makes of them. Where the type of a
/// member is never specified, `f` is not called and the diagnostic is
/// returned, located at the first occurrence of the member's identifier.
pub fn tokenize<F: FnOnce(Vec<Vec<Token>>) -> Vec<Token>>(inputs: &[Variant], f: F) -> (r: Result<
    Vec<Token>,
    CompileError,
>)
    requires
        forall|members: Vec<Vec<Token>>|
            declares(members, inputs.deep_view()) ==> call_requires(f, (members,)),
    ensures
        match alphabet_of(inputs.deep_view()) {
            Ok(_) => r matches Ok(out) && exists|members: Vec<Vec<Token>>|
                declares(members, inputs.deep_view()) && call_ensures(f, (members,), out),
            Err(e) => r == Err::<Vec<Token>, CompileError>(e),
        },
{
    match alphabet(inputs) {
        Err(e) => Err(e),
        Ok(alphabet) => {
            let members = declare_members(&alphabet);
            assert(declares(members, inputs.deep_view()));
            Ok(f(members))
        },
    }
}

/// Builds the declarations of the given members.
pub fn declare_members(members: &Vec<Member>) -> (out: Vec<Vec<Token>>)
    ensures
        out.deep_view() == members_tokens(members.deep_view()),
{
    let mut out: Vec<Vec<Token>> = Vec::new();
    let mut i: usize = 0;
    while i < members.len()
        invariant
            i <= members.len(),
            out.deep_view() == members_tokens(members.deep_view()).subrange(0, i as int),
        decreases members.len() - i,
    {
        let declaration = members[i].declare();
        push_deep(&mut out, declaration);
        i += 1;
    }
    out
}

impl Member {
    /// The declaration of the member in its enumeration.
    pub fn declare(&self) -> (out: Vec<Token>)
        ensures
            out.deep_view() == member_tokens(self@),
    {
        let mut out: Vec<Token> = Vec::new();
        push_token(&mut out, Token::Ident(self.ident.clone()));
        match &self.ty {
            None => {},
            Some(t) => {
                push_token(&mut out, Token::Open(Delimiter::Parenthesis));
                push_tokens(&mut out, t);
                push_token(&mut out, Token::Close(Delimiter::Parenthesis));
            },
        }
        out
    }
}

/// Member `j` of `members` is the one for `ident`.
pub open spec fn is_member(members: Seq<MemberView>, j: int, ident: Seq<char>) -> bool {
    0 <= j < members.len() && members[j].ident == ident
}

/// `ident` occurs first at some index from `from` on.
pub open spec fn occurs_first_from(list: Seq<VariantView>, from: int, ident: Seq<char>) -> bool {
    exists|i: int| from <= i < list.len() && is_first(list, i) && #[trigger] list[i].ident == ident
}

/// Every identifier that occurs at all occurs first somewhere.
proof fn lemma_first_occurrence(list: Seq<VariantView>, i: int)
    requires
        0 <= i < list.len(),
    ensures
        occurs_first_from(list, 0, list[i].ident),
    decreases i,
{
    if !is_first(list, i) {
        let j = choose|j: int| 0 <= j < i && (#[trigger] list[j]).ident == list[i].ident;
        lemma_first_occurrence(list, j);
    }
}

/// What [`alphabet_from`] builds: a member for each identifier that occurs
/// first at `from` or later, no member for anything else, and no two
/// members for one identifier.
proof fn lemma_alphabet_from(list: Seq<VariantView>, from: int, members: Seq<MemberView>)
    requires
        0 <= from <= list.len(),
        alphabet_from(list, from) == Ok::<Seq<MemberView>, CompileError>(members),
    ensures
        forall|j: int|
            0 <= j < members.len() ==> occurs_first_from(list, from, (#[trigger] members[j]).ident),
        forall|j: int|
            0 <= j < members.len() ==> member_for(list, (#[trigger] members[j]).ident) == Some(
                members[j],
            ),
        forall|i: int|
            from <= i < list.len() && is_first(list, i) ==> exists|j: int|
                is_member(members, j, (#[trigger] list[i]).ident),
        forall|j: int, k: int|
            0 <= j < k < members.len() ==> (#[trigger] members[j]).ident != (
            #[trigger] members[k]).ident,
    decreases list.len() - from,
{
    if from < list.len() {
        if !is_first(list, from) {
            lemma_alphabet_from(list, from + 1, members);
        } else {
            let rest = alphabet_from(list, from + 1)->Ok_0;
            lemma_alphabet_from(list, from + 1, rest);
            assert forall|i: int| from <= i < list.len() && is_first(list, i) implies exists|
                j: int,
            |
                is_member(members, j, (#[trigger] list[i]).ident) by {
                if i == from {
                    assert(is_member(members, 0, list[i].ident));
                } else {
                    let j = choose|j: int| is_member(rest, j, list[i].ident);
                    assert(is_member(members, j + 1, list[i].ident));
                }
            }
        }
    }
}

/// `x` and `y` occur first at some indices from `from` on, `x` before `y`.
pub open spec fn first_before(
    list: Seq<VariantView>,
    from: int,
    x: Seq<char>,
    y: Seq<char>,
) -> bool {
    exists|a: int, b: int|
        from <= a < b < list.len() && is_first(list, a) && is_first(list, b)
            && #[trigger] list[a].ident == x && #[trigger] list[b].ident == y
}

/// The members that [`alphabet_from`] builds stand in the order in which
/// their identifiers first occur.
proof fn lemma_alphabet_from_order(
    list: Seq<VariantView>,
    from: int,
    members: Seq<MemberView>,
    j: int,
    k: int,
)
    requires
        0 <= from <= list.len(),
        alphabet_from(list, from) == Ok::<Seq<MemberView>, CompileError>(members),
        0 <= j < k < members.len(),
    ensures
        first_before(list, from, members[j].ident, members[k].ident),
    decreases list.len() - from,
{
    if from < list.len() {
        if !is_first(list, from) {
            lemma_alphabet_from_order(list, from + 1, members, j, k);
        } else {
            let rest = alphabet_from(list, from + 1)->Ok_0;
            if j == 0 {
                lemma_alphabet_from(list, from + 1, rest);
            } else {
                lemma_alphabet_from_order(list, from + 1, rest, j - 1, k - 1);
            }
        }
    }
}

/// What came first stays first: of two members of an alphabet, the earlier
/// one is the one whose identifier occurs first in the list.
pub proof fn lemma_alphabet_keeps_order(
    list: Seq<VariantView>,
    members: Seq<MemberView>,
    j: int,
    k: int,
)
    requires
        alphabet_of(list) == Ok::<Seq<MemberView>, CompileError>(members),
        0 <= j < k < members.len(),
    ensures
        first_before(list, 0, members[j].ident, members[k].ident),
{
    lemma_alphabet_from_order(list, 0, members, j, k);
}

/// However often an identifier occurs in the list, the alphabet holds
/// exactly one member for it.
pub proof fn lemma_one_member_each(list: Seq<VariantView>, members: Seq<MemberView>, i: int)
    requires
        alphabet_of(list) == Ok::<Seq<MemberView>, CompileError>(members),
        0 <= i < list.len(),
    ensures
        exists|j: int| is_member(members, j, list[i].ident),
        forall|j: int, k: int|
            is_member(members, j, list[i].ident) && is_member(members, k, list[i].ident) ==> j
                == k,
{
    lemma_alphabet_from(list, 0, members);
    lemma_first_occurrence(list, i);
}

/// No two members of an alphabet have the same identifier.
pub open spec fn distinct(members: Seq<MemberView>) -> bool {
    forall|j: int, k: int|
        0 <= j < k < members.len() ==> (#[trigger] members[j]).ident != (
        #[trigger] members[k]).ident
}

/// Alphabets hold no duplicates: no two members have the same identifier.
pub proof fn lemma_alphabet_is_distinct(list: Seq<VariantView>, members: Seq<MemberView>)
    requires
        alphabet_of(list) == Ok::<Seq<MemberView>, CompileError>(members),
    ensures
        distinct(members),
{
    lemma_alphabet_from(list, 0, members);
}

/// Alphabets hold nothing else: every member is the member for an
/// identifier that occurs in the list.
pub proof fn lemma_members_occur(list: Seq<VariantView>, members: Seq<MemberView>, j: int)
    requires
        alphabet_of(list) == Ok::<Seq<MemberView>, CompileError>(members),
        0 <= j < members.len(),
    ensures
        exists|i: int| 0 <= i < list.len() && #[trigger] list[i].ident == members[j].ident,
        member_for(list, members[j].ident) == Some(members[j]),
{
    lemma_alphabet_from(list, 0, members);
}

/// Where no occurrence of `ident` from `from` on carries data, occurrence
/// `k` is none that does.
proof fn lemma_carrier_none(list: Seq<VariantView>, ident: Seq<char>, from: int, k: int)
    requires
        0 <= from <= k < list.len(),
        carrier(list, ident, from) is None,
    ensures
        !(list[k].ident == ident && list[k].field is Some),
    decreases list.len() - from,
{
    if from < k {
        lemma_carrier_none(list, ident, from + 1, k);
    }
}

/// The carrier is the first occurrence of `ident` that carries data.
proof fn lemma_carrier_first(list: Seq<VariantView>, ident: Seq<char>, from: int)
    requires
        0 <= from,
    ensures
        carrier(list, ident, from) matches Some(c) ==> from <= c < list.len() && list[c].ident
            == ident && list[c].field is Some && forall|k: int|
            from <= k < c ==> !((#[trigger] list[k]).ident == ident && list[k].field is Some),
    decreases list.len() - from,
{
    if from < list.len() && !(list[from].ident == ident && list[from].field is Some) {
        lemma_carrier_first(list, ident, from + 1);
    }
}

/// Where no occurrence of `ident` in `from..upto` declares a type, the
/// declared type is the one declared from `upto` on.
proof fn lemma_declared_type_skips(list: Seq<VariantView>, ident: Seq<char>, from: int, upto: int)
    requires
        0 <= from <= upto <= list.len(),
        forall|k: int|
            from <= k < upto ==> !((#[trigger] list[k]).ident == ident && own_type(list[k])
                is Some),
    ensures
        declared_type(list, ident, from) == declared_type(list, ident, upto),
    decreases upto - from,
{
    if from < upto {
        lemma_declared_type_skips(list, ident, from + 1, upto);
    }
}

/// The type of a member is the first type that any occurrence of its
/// identifier declares, in the order of declaration.
pub proof fn lemma_member_type(list: Seq<VariantView>, members: Seq<MemberView>, j: int)
    requires
        alphabet_of(list) == Ok::<Seq<MemberView>, CompileError>(members),
        0 <= j < members.len(),
    ensures
        members[j].ty == declared_type(list, members[j].ident, 0),
{
    lemma_members_occur(list, members, j);
    let ident = members[j].ident;
    lemma_carrier_first(list, ident, 0);
    match carrier(list, ident, 0) {
        Some(c) => {
            lemma_declared_type_skips(list, ident, 0, c);
        },
        None => {
            assert forall|k: int| 0 <= k < list.len() implies !((#[trigger] list[k]).ident
                == ident && own_type(list[k]) is Some) by {
                lemma_carrier_none(list, ident, 0, k);
            }
            lemma_declared_type_skips(list, ident, 0, list.len() as int);
        },
    }
}

/// Where an identifier carries data at occurrence `i` without naming the
/// type, and a later occurrence `j` is the first to name it, the member for
/// the identifier has that type.
pub proof fn lemma_later_type_is_adopted(
    list: Seq<VariantView>,
    members: Seq<MemberView>,
    i: int,
    j: int,
    m: int,
)
    requires
        alphabet_of(list) == Ok::<Seq<MemberView>, CompileError>(members),
        0 <= i < j < list.len(),
        list[i].ident == list[j].ident,
        list[i].field is Some,
        own_type(list[j]) is Some,
        forall|k: int|
            0 <= k < j && (#[trigger] list[k]).ident == list[j].ident ==> own_type(list[k])
                is None,
        is_member(members, m, list[j].ident),
    ensures
        members[m].ty == own_type(list[j]),
{
    lemma_member_type(list, members, m);
    lemma_declared_type_skips(list, list[j].ident, 0, j);
}

/// An occurrence without data at the end of the list changes neither which
/// occurrence of an identifier is the first to carry data nor which type is
/// declared for it.
proof fn lemma_plain_occurrence_adds_nothing(
    list: Seq<VariantView>,
    v: VariantView,
    ident: Seq<char>,
    from: int,
)
    requires
        v.field is None,
        0 <= from <= list.len(),
    ensures
        carrier(list.push(v), ident, from) == carrier(list, ident, from),
        declared_type(list.push(v), ident, from) == declared_type(list, ident, from),
    decreases list.len() - from,
{
    let longer = list.push(v);
    if from < list.len() {
        assert(longer[from] == list[from]);
        lemma_plain_occurrence_adds_nothing(list, v, ident, from + 1);
    } else {
        assert(longer[from] == v);
        assert(carrier(longer, ident, from + 1) is None);
        assert(declared_type(longer, ident, from + 1) is None);
    }
}

/// A repeated occurrence without data leaves the members from `from` on as
/// they are.
proof fn lemma_repeated_occurrence_from(list: Seq<VariantView>, v: VariantView, from: int)
    requires
        v.field is None,
        exists|i: int| 0 <= i < list.len() && (#[trigger] list[i]).ident == v.ident,
        0 <= from <= list.len(),
    ensures
        alphabet_from(list.push(v), from) == alphabet_from(list, from),
    decreases list.len() - from,
{
    let longer = list.push(v);
    if from < list.len() {
        assert(longer[from] == list[from]);
        assert(is_first(longer, from) == is_first(list, from)) by {
            assert forall|j: int| 0 <= j < from implies longer[j] == list[j] by {}
        }
        lemma_repeated_occurrence_from(list, v, from + 1);
        let ident = list[from].ident;
        lemma_plain_occurrence_adds_nothing(list, v, ident, 0);
        match carrier(list, ident, 0) {
            Some(k) => {
                lemma_carrier_first(list, ident, 0);
                assert(longer[k] == list[k]);
            },
            None => {},
        }
    } else {
        let i = choose|i: int| 0 <= i < list.len() && (#[trigger] list[i]).ident == v.ident;
        assert(longer[i] == list[i]);
        assert(longer[from] == v);
        assert(!is_first(longer, from));
        assert(alphabet_from(longer, from + 1) == Ok::<Seq<MemberView>, CompileError>(
            Seq::empty(),
        ));
    }
}

/// Mentioning an identifier once more changes no alphabet: where `v`
/// carries no data and its identifier occurs in the list already, the list
/// with `v` at its end has the alphabet of the list, or fails as it does.
pub proof fn lemma_repeated_occurrence(list: Seq<VariantView>, v: VariantView)
    requires
        v.field is None,
        exists|i: int| 0 <= i < list.len() && (#[trigger] list[i]).ident == v.ident,
    ensures
        alphabet_of(list.push(v)) == alphabet_of(list),
{
    lemma_repeated_occurrence_from(list, v, 0);
}

} // verus!
