//! The Rust code that a machine is emitted as: one enumeration for each
//! alphabet that the description owns, and the transition function as an
//! ordered match over pairs of state and input.

use crate::error::{message_of, CompileError};
use crate::machine::{row_guard, Machine, MachineView, Row, RowView};
use crate::parser::{ImplementationRequired, NameView};
use crate::token::{copy_tokens, push_token, push_tokens, Delimiter, Tok, Token};
use crate::variant::{declare_members, members_tokens, pattern_tokens, value_tokens};
use vstd::prelude::*;
use vstd::string::StringExecFns;

verus! {

/// The word `s` as a token sequence.
pub open spec fn word(s: Seq<char>) -> Seq<Tok> {
    seq![Tok::Ident(s)]
}

/// `::`
pub open spec fn colons() -> Seq<Tok> {
    seq![Tok::Punct(':', true), Tok::Punct(':', false)]
}

/// `::s`, one segment of a path.
pub open spec fn segment(s: Seq<char>) -> Seq<Tok> {
    colons() + word(s)
}

/// The punctuation character `c` on its own.
pub open spec fn sign(c: char) -> Seq<Tok> {
    seq![Tok::Punct(c, false)]
}

/// `=>`
pub open spec fn fat_arrow() -> Seq<Tok> {
    seq![Tok::Punct('=', true), Tok::Punct('>', false)]
}

/// `->`
pub open spec fn thin_arrow() -> Seq<Tok> {
    seq![Tok::Punct('-', true), Tok::Punct('>', false)]
}

/// `inner` in delimiters of shape `d`.
pub open spec fn wrapped(d: Delimiter, inner: Seq<Tok>) -> Seq<Tok> {
    seq![Tok::Open(d)] + inner + seq![Tok::Close(d)]
}

/// The items, separated by commas.
pub open spec fn separated(items: Seq<Seq<Tok>>) -> Seq<Tok>
    decreases items.len(),
{
    if items.len() == 0 {
        Seq::empty()
    } else if items.len() == 1 {
        items[0]
    } else {
        separated(items.drop_last()) + sign(',') + items.last()
    }
}

/// The declaration of the enumeration `ident`: `head enum ident { list }`.
pub open spec fn declaration(ident: Seq<char>, head: Seq<Tok>, list: Seq<Tok>) -> Seq<Tok> {
    head + word("enum"@) + word(ident) + wrapped(Delimiter::Brace, list)
}

/// The declaration of an enumeration, with its members separated by commas.
/// An enumeration that is defined elsewhere is not declared.
pub open spec fn enum_tokens(name: NameView, head: Seq<Tok>, members: Seq<Seq<Tok>>) -> Seq<Tok> {
    match name {
        NameView::No(_) => Seq::empty(),
        NameView::Yes(ident, _) => declaration(ident, head, separated(members)),
    }
}

/// The path by which the generated code names an enumeration.
pub open spec fn name_path(name: NameView) -> Seq<Tok> {
    match name {
        NameView::Yes(ident, _) => word(ident),
        NameView::No(path) => path,
    }
}

/// The generic parameters that the header gives an enumeration.
pub open spec fn name_generics(name: NameView) -> Seq<Tok> {
    match name {
        NameView::Yes(_, generics) => generics,
        NameView::No(_) => Seq::empty(),
    }
}

/// `::core::result::Result`
pub open spec fn result_path() -> Seq<Tok> {
    segment("core"@) + segment("result"@) + segment("Result"@)
}

/// `::core::option::Option`
pub open spec fn option_path() -> Seq<Tok> {
    segment("core"@) + segment("option"@) + segment("Option"@)
}

/// `::rust_fsm::TransitionImpossibleError`
pub open spec fn rejection_path() -> Seq<Tok> {
    segment("rust_fsm"@) + segment("TransitionImpossibleError"@)
}

/// The output that an arm returns: `Some(Self::Output::value)`, or `None`.
pub open spec fn output_tokens(row: RowView) -> Seq<Tok> {
    match row.output {
        Some(output) => option_path() + segment("Some"@) + wrapped(
            Delimiter::Parenthesis,
            word("Self"@) + segment("Output"@) + colons() + value_tokens(output),
        ),
        None => option_path() + segment("None"@),
    }
}

/// The guard of an arm: `if guard`, or nothing.
pub open spec fn guard_tokens(row: RowView) -> Seq<Tok> {
    match row_guard(row) {
        Some(g) => word("if"@) + g,
        None => Seq::empty(),
    }
}

/// What an arm matches: `(Self::state, Self::Input::input)`.
pub open spec fn arm_pattern(row: RowView) -> Seq<Tok> {
    wrapped(
        Delimiter::Parenthesis,
        word("Self"@) + colons() + pattern_tokens(row.initial) + sign(',') + word("Self"@)
            + segment("Input"@) + colons() + pattern_tokens(row.input),
    )
}

/// What an arm returns: `{ Ok((Self::target, output)) }`.
pub open spec fn arm_body(row: RowView) -> Seq<Tok> {
    wrapped(
        Delimiter::Brace,
        result_path() + segment("Ok"@) + wrapped(
            Delimiter::Parenthesis,
            wrapped(
                Delimiter::Parenthesis,
                word("Self"@) + colons() + value_tokens(row.target) + sign(',') + output_tokens(
                    row,
                ),
            ),
        ),
    )
}

/// The match arm of a row: pattern, guard, `=>`, body.
pub open spec fn arm_tokens(row: RowView) -> Seq<Tok> {
    arm_pattern(row) + guard_tokens(row) + fat_arrow() + arm_body(row)
}

/// The arms of the rows, in the order of the table.
pub open spec fn arms_tokens(rows: Seq<RowView>) -> Seq<Tok>
    decreases rows.len(),
{
    if rows.len() == 0 {
        Seq::empty()
    } else {
        arms_tokens(rows.drop_last()) + arm_tokens(rows.last())
    }
}

/// The last arm, which takes every pair that no row has taken and hands
/// state and input back by value:
/// `(state, input) => Err(TransitionImpossibleError { state, input, }),`.
pub open spec fn rejection_arm() -> Seq<Tok> {
    wrapped(Delimiter::Parenthesis, word("state"@) + sign(',') + word("input"@)) + fat_arrow()
        + result_path() + segment("Err"@) + wrapped(
        Delimiter::Parenthesis,
        rejection_path() + wrapped(
            Delimiter::Brace,
            word("state"@) + sign(',') + word("input"@) + sign(','),
        ),
    ) + sign(',')
}

/// The return type of the transition function:
/// `Result<(Self, Option<Self::Output>), TransitionImpossibleError<Self, Self::Input>>`.
pub open spec fn return_type() -> Seq<Tok> {
    result_path() + sign('<') + wrapped(
        Delimiter::Parenthesis,
        word("Self"@) + sign(',') + option_path() + sign('<') + word("Self"@) + segment("Output"@)
            + sign('>'),
    ) + sign(',') + rejection_path() + sign('<') + word("Self"@) + sign(',') + word("Self"@)
        + segment("Input"@) + sign('>') + sign('>')
}

/// The transition function: an ordered match with one arm for each row and
/// the rejecting arm last.
pub open spec fn function_tokens(rows: Seq<RowView>) -> Seq<Tok> {
    word("fn"@) + word("transition"@) + wrapped(
        Delimiter::Parenthesis,
        word("self"@) + sign(',') + word("input"@) + sign(':') + word("Self"@) + segment("Input"@),
    ) + thin_arrow() + return_type() + wrapped(
        Delimiter::Brace,
        word("match"@) + wrapped(
            Delimiter::Parenthesis,
            word("self"@) + sign(',') + word("input"@),
        ) + wrapped(Delimiter::Brace, arms_tokens(rows) + rejection_arm()),
    )
}

/// `type Name = path;`
pub open spec fn alias_tokens(name: Seq<char>, path: Seq<Tok>) -> Seq<Tok> {
    word("type"@) + word(name) + sign('=') + path + sign(';')
}

/// The implementation of the runtime interface for the state enumeration.
pub open spec fn impl_tokens(m: MachineView) -> Seq<Tok> {
    word("impl"@) + segment("rust_fsm"@) + segment("StateMachineImpl"@) + word("for"@) + name_path(
        m.state_name,
    ) + wrapped(
        Delimiter::Brace,
        alias_tokens("Input"@, name_path(m.input_name)) + alias_tokens(
            "Output"@,
            name_path(m.output_name),
        ) + function_tokens(m.rows),
    )
}

/// The visibility of the enumerations: that of the header, or `pub` where
/// they stand in a module of their own.
pub open spec fn item_visibility(m: MachineView) -> Seq<Tok> {
    match m.module {
        Some(_) => word("pub"@),
        None => m.visibility,
    }
}

/// What stands before `enum` in the declaration of the state and input
/// enumerations: documentation, attributes, visibility.
pub open spec fn head_tokens(m: MachineView) -> Seq<Tok> {
    m.doc + m.attributes + item_visibility(m)
}

/// What stands before `enum` in the declaration of the output enumeration:
/// the same, but without the attributes where the enumeration is empty.
pub open spec fn output_head_tokens(m: MachineView) -> Seq<Tok> {
    if m.outputs.len() == 0 {
        m.doc + item_visibility(m)
    } else {
        head_tokens(m)
    }
}

/// The items of a machine: the input, state and output enumerations, then
/// the implementation with the transition function.
pub open spec fn items_tokens(m: MachineView) -> Seq<Tok> {
    enum_tokens(m.input_name, head_tokens(m), members_tokens(m.inputs)) + enum_tokens(
        m.state_name,
        head_tokens(m),
        members_tokens(m.states),
    ) + enum_tokens(m.output_name, output_head_tokens(m), members_tokens(m.outputs))
        + impl_tokens(m)
}

/// The code of a machine: its items, in a module with the visibility of
/// the header where the header names one.
pub open spec fn code_tokens(m: MachineView) -> Seq<Tok> {
    match m.module {
        Some(name) => m.visibility + word("mod"@) + word(name) + wrapped(
            Delimiter::Brace,
            items_tokens(m),
        ),
        None => items_tokens(m),
    }
}

/// The code that reports a diagnostic when it is compiled:
/// `::core::compile_error! { "message" }`.
pub open spec fn error_tokens(e: CompileError) -> Seq<Tok> {
    segment("core"@) + segment("compile_error"@) + sign('!') + wrapped(
        Delimiter::Brace,
        seq![Tok::Literal("\""@ + message_of(e.kind) + "\""@)],
    )
}

/// Appends the word `w`.
fn put_word(out: &mut Vec<Token>, w: &str)
    ensures
        final(out).deep_view() == old(out).deep_view() + word(w@),
{
    push_token(out, Token::word(w));
}

/// Appends `::`.
fn put_colons(out: &mut Vec<Token>)
    ensures
        final(out).deep_view() == old(out).deep_view() + colons(),
{
    push_token(out, Token::Punct(':', true));
    push_token(out, Token::Punct(':', false));
}

/// Appends `::w`.
fn put_segment(out: &mut Vec<Token>, w: &str)
    ensures
        final(out).deep_view() == old(out).deep_view() + segment(w@),
{
    put_colons(out);
    put_word(out, w);
}

/// Appends the punctuation character `c`.
fn put_sign(out: &mut Vec<Token>, c: char)
    ensures
        final(out).deep_view() == old(out).deep_view() + sign(c),
{
    push_token(out, Token::Punct(c, false));
}

/// Appends `=>`.
fn put_fat_arrow(out: &mut Vec<Token>)
    ensures
        final(out).deep_view() == old(out).deep_view() + fat_arrow(),
{
    push_token(out, Token::Punct('=', true));
    push_token(out, Token::Punct('>', false));
}

/// Appends `->`.
fn put_thin_arrow(out: &mut Vec<Token>)
    ensures
        final(out).deep_view() == old(out).deep_view() + thin_arrow(),
{
    push_token(out, Token::Punct('-', true));
    push_token(out, Token::Punct('>', false));
}

/// Appends `inner` in delimiters of shape `d`.
fn put_wrapped(out: &mut Vec<Token>, d: Delimiter, inner: &Vec<Token>)
    ensures
        final(out).deep_view() == old(out).deep_view() + wrapped(d, inner.deep_view()),
{
    push_token(out, Token::Open(d));
    push_tokens(out, inner);
    push_token(out, Token::Close(d));
}

/// A token sequence to build on.
fn blank() -> (out: Vec<Token>)
    ensures
        out.deep_view() == Seq::<Tok>::empty(),
{
    let out: Vec<Token> = Vec::new();
    out
}

/// Joins the items with commas.
pub fn separate(items: &Vec<Vec<Token>>) -> (out: Vec<Token>)
    ensures
        out.deep_view() == separated(items.deep_view()),
{
    let ghost all = items.deep_view();
    let mut out = blank();
    let mut i: usize = 0;
    while i < items.len()
        invariant
            i <= items.len(),
            all == items.deep_view(),
            out.deep_view() == separated(all.subrange(0, i as int)),
        decreases items.len() - i,
    {
        assert(all.subrange(0, i + 1).drop_last() =~= all.subrange(0, i as int));
        if i > 0 {
            put_sign(&mut out, ',');
        }
        push_tokens(&mut out, &items[i]);
        i += 1;
    }
    assert(all.subrange(0, items.len() as int) =~= all);
    out
}

/// The declaration of the enumeration that `name` stands for:
/// `head enum Name { members }` with the members separated by commas.
/// Nothing is declared for an enumeration that is defined elsewhere.
pub fn emit_enum(
    name: &ImplementationRequired,
    head: &Vec<Token>,
    members: &Vec<Vec<Token>>,
) -> (out: Vec<Token>)
    ensures
        out.deep_view() == enum_tokens(name@, head.deep_view(), members.deep_view()),
{
    let list = separate(members);
    let declare = |ident: &String| -> (out: Vec<Token>)
        ensures
            out.deep_view() == declaration(ident@, head.deep_view(), list.deep_view()),
        {
            let mut out = copy_tokens(head);
            put_word(&mut out, "enum");
            push_token(&mut out, Token::Ident(ident.clone()));
            put_wrapped(&mut out, Delimiter::Brace, &list);
            assert(out.deep_view() =~= declaration(ident@, head.deep_view(), list.deep_view()));
            out
        };
    name.tokenize(declare)
}

impl ImplementationRequired {
    /// What `f` makes of the identifier of an enumeration that is to be
    /// generated; nothing for an enumeration that is defined elsewhere.
    pub fn tokenize<F: Fn(&String) -> Vec<Token>>(&self, f: F) -> (out: Vec<Token>)
        requires
            self matches ImplementationRequired::Yes(ident, _) ==> call_requires(f, (ident,)),
        ensures
            match self {
                ImplementationRequired::Yes(ident, _) => call_ensures(f, (ident,), out),
                ImplementationRequired::No(_) => out.deep_view() == Seq::<Tok>::empty(),
            },
    {
        match self {
            ImplementationRequired::Yes(ident, _) => f(ident),
            ImplementationRequired::No(_) => blank(),
        }
    }

    /// The generic parameters that the header gives the enumeration, angle
    /// brackets included; nothing where it gives none.
    pub fn g(&self) -> (out: Vec<Token>)
        ensures
            out.deep_view() == name_generics(self@),
    {
        match self {
            ImplementationRequired::Yes(_, generics) => copy_tokens(generics),
            ImplementationRequired::No(_) => blank(),
        }
    }

    /// The path by which the generated code names the enumeration.
    pub fn path(self) -> (out: Vec<Token>)
        ensures
            out.deep_view() == name_path(self@),
    {
        match self {
            ImplementationRequired::Yes(ident, _) => {
                let mut out = blank();
                push_token(&mut out, Token::Ident(ident));
                out
            },
            ImplementationRequired::No(path) => path,
        }
    }
}

/// Appends `::core::result::Result`.
fn put_result_path(out: &mut Vec<Token>)
    ensures
        final(out).deep_view() == old(out).deep_view() + result_path(),
{
    put_segment(out, "core");
    put_segment(out, "result");
    put_segment(out, "Result");
}

/// Appends `::core::option::Option`.
fn put_option_path(out: &mut Vec<Token>)
    ensures
        final(out).deep_view() == old(out).deep_view() + option_path(),
{
    put_segment(out, "core");
    put_segment(out, "option");
    put_segment(out, "Option");
}

/// Appends `::rust_fsm::TransitionImpossibleError`.
fn put_rejection_path(out: &mut Vec<Token>)
    ensures
        final(out).deep_view() == old(out).deep_view() + rejection_path(),
{
    put_segment(out, "rust_fsm");
    put_segment(out, "TransitionImpossibleError");
}

impl Row {
    /// The output that the arm of this row returns.
    pub fn emit_output(&self) -> (out: Vec<Token>)
        ensures
            out.deep_view() == output_tokens(self@),
    {
        let mut out = blank();
        put_option_path(&mut out);
        match &self.output {
            Some(output) => {
                put_segment(&mut out, "Some");
                let mut inner = blank();
                put_word(&mut inner, "Self");
                put_segment(&mut inner, "Output");
                put_colons(&mut inner);
                push_tokens(&mut inner, &output.value());
                put_wrapped(&mut out, Delimiter::Parenthesis, &inner);
            },
            None => {
                put_segment(&mut out, "None");
            },
        }
        out
    }

    /// The guard of the arm of this row, with its `if`.
    pub fn emit_guard(&self) -> (out: Vec<Token>)
        ensures
            out.deep_view() == guard_tokens(self@),
    {
        let mut out = blank();
        match self.guard() {
            Some(g) => {
                put_word(&mut out, "if");
                push_tokens(&mut out, &g);
            },
            None => {},
        }
        out
    }

    /// What the arm of this row matches.
    pub fn emit_pattern(&self) -> (out: Vec<Token>)
        ensures
            out.deep_view() == arm_pattern(self@),
    {
        let mut inner = blank();
        put_word(&mut inner, "Self");
        put_colons(&mut inner);
        push_tokens(&mut inner, &self.initial.separate().0);
        put_sign(&mut inner, ',');
        put_word(&mut inner, "Self");
        put_segment(&mut inner, "Input");
        put_colons(&mut inner);
        push_tokens(&mut inner, &self.input.separate().0);
        let mut out = blank();
        put_wrapped(&mut out, Delimiter::Parenthesis, &inner);
        out
    }

    /// What the arm of this row returns.
    pub fn emit_body(&self) -> (out: Vec<Token>)
        ensures
            out.deep_view() == arm_body(self@),
    {
        let mut pair = blank();
        put_word(&mut pair, "Self");
        put_colons(&mut pair);
        push_tokens(&mut pair, &self.target.value());
        put_sign(&mut pair, ',');
        push_tokens(&mut pair, &self.emit_output());
        let mut argument = blank();
        put_wrapped(&mut argument, Delimiter::Parenthesis, &pair);
        let mut inner = blank();
        put_result_path(&mut inner);
        put_segment(&mut inner, "Ok");
        put_wrapped(&mut inner, Delimiter::Parenthesis, &argument);
        let mut out = blank();
        put_wrapped(&mut out, Delimiter::Brace, &inner);
        out
    }

    /// The match arm of this row.
    pub fn emit(&self) -> (out: Vec<Token>)
        ensures
            out.deep_view() == arm_tokens(self@),
    {
        let mut out = self.emit_pattern();
        push_tokens(&mut out, &self.emit_guard());
        put_fat_arrow(&mut out);
        push_tokens(&mut out, &self.emit_body());
        out
    }
}

/// The arms of all rows, in the order of the table.
pub fn emit_arms(rows: &Vec<Row>) -> (out: Vec<Token>)
    ensures
        out.deep_view() == arms_tokens(rows.deep_view()),
{
    let ghost table = rows.deep_view();
    let mut out = blank();
    let mut i: usize = 0;
    while i < rows.len()
        invariant
            i <= rows.len(),
            table == rows.deep_view(),
            out.deep_view() == arms_tokens(table.subrange(0, i as int)),
        decreases rows.len() - i,
    {
        assert(table.subrange(0, i + 1).drop_last() =~= table.subrange(0, i as int));
        push_tokens(&mut out, &rows[i].emit());
        i += 1;
    }
    assert(table.subrange(0, rows.len() as int) =~= table);
    out
}

/// The arm that rejects every pair that no row has taken.
pub fn emit_rejection_arm() -> (out: Vec<Token>)
    ensures
        out.deep_view() == rejection_arm(),
{
    let mut pair = blank();
    put_word(&mut pair, "state");
    put_sign(&mut pair, ',');
    put_word(&mut pair, "input");
    let mut fields = blank();
    put_word(&mut fields, "state");
    put_sign(&mut fields, ',');
    put_word(&mut fields, "input");
    put_sign(&mut fields, ',');
    let mut value = blank();
    put_rejection_path(&mut value);
    put_wrapped(&mut value, Delimiter::Brace, &fields);
    let mut out = blank();
    put_wrapped(&mut out, Delimiter::Parenthesis, &pair);
    put_fat_arrow(&mut out);
    put_result_path(&mut out);
    put_segment(&mut out, "Err");
    put_wrapped(&mut out, Delimiter::Parenthesis, &value);
    put_sign(&mut out, ',');
    out
}

/// The return type of the transition function.
pub fn emit_return_type() -> (out: Vec<Token>)
    ensures
        out.deep_view() == return_type(),
{
    let mut pair = blank();
    put_word(&mut pair, "Self");
    put_sign(&mut pair, ',');
    put_option_path(&mut pair);
    put_sign(&mut pair, '<');
    put_word(&mut pair, "Self");
    put_segment(&mut pair, "Output");
    put_sign(&mut pair, '>');
    let mut out = blank();
    put_result_path(&mut out);
    put_sign(&mut out, '<');
    put_wrapped(&mut out, Delimiter::Parenthesis, &pair);
    put_sign(&mut out, ',');
    put_rejection_path(&mut out);
    put_sign(&mut out, '<');
    put_word(&mut out, "Self");
    put_sign(&mut out, ',');
    put_word(&mut out, "Self");
    put_segment(&mut out, "Input");
    put_sign(&mut out, '>');
    put_sign(&mut out, '>');
    out
}

/// The transition function for the given table.
pub fn emit_function(rows: &Vec<Row>) -> (out: Vec<Token>)
    ensures
        out.deep_view() == function_tokens(rows.deep_view()),
{
    let mut parameters = blank();
    put_word(&mut parameters, "self");
    put_sign(&mut parameters, ',');
    put_word(&mut parameters, "input");
    put_sign(&mut parameters, ':');
    put_word(&mut parameters, "Self");
    put_segment(&mut parameters, "Input");
    let mut scrutinee = blank();
    put_word(&mut scrutinee, "self");
    put_sign(&mut scrutinee, ',');
    put_word(&mut scrutinee, "input");
    let mut arms = emit_arms(rows);
    push_tokens(&mut arms, &emit_rejection_arm());
    let mut body = blank();
    put_word(&mut body, "match");
    put_wrapped(&mut body, Delimiter::Parenthesis, &scrutinee);
    put_wrapped(&mut body, Delimiter::Brace, &arms);
    let mut out = blank();
    put_word(&mut out, "fn");
    put_word(&mut out, "transition");
    put_wrapped(&mut out, Delimiter::Parenthesis, &parameters);
    put_thin_arrow(&mut out);
    push_tokens(&mut out, &emit_return_type());
    put_wrapped(&mut out, Delimiter::Brace, &body);
    out
}

/// `type name = path;`
fn emit_alias(name: &str, path: &Vec<Token>) -> (out: Vec<Token>)
    ensures
        out.deep_view() == alias_tokens(name@, path.deep_view()),
{
    let mut out = blank();
    put_word(&mut out, "type");
    put_word(&mut out, name);
    put_sign(&mut out, '=');
    push_tokens(&mut out, path);
    put_sign(&mut out, ';');
    out
}

impl Machine {
    /// The implementation of the runtime interface for the state
    /// enumeration, with the transition function.
    pub fn emit_impl(&self) -> (out: Vec<Token>)
        ensures
            out.deep_view() == impl_tokens(self@),
    {
        let mut body = emit_alias("Input", &self.input_name.duplicate().path());
        push_tokens(&mut body, &emit_alias("Output", &self.output_name.duplicate().path()));
        push_tokens(&mut body, &emit_function(&self.rows));
        let mut out = blank();
        put_word(&mut out, "impl");
        put_segment(&mut out, "rust_fsm");
        put_segment(&mut out, "StateMachineImpl");
        put_word(&mut out, "for");
        push_tokens(&mut out, &self.state_name.duplicate().path());
        put_wrapped(&mut out, Delimiter::Brace, &body);
        out
    }

    /// Emits the machine as Rust code: the enumerations of inputs, states
    /// and outputs, as far as the description owns them, each with one
    /// member for each member of its alphabet; then the transition
    /// function. Documentation, attributes and visibility of the header
    /// stand before each enumeration, but an output enumeration without
    /// members gets no attributes. Where the header names a module, the
    /// items stand in it: the module has the visibility of the header and
    /// the enumerations are public.
    pub fn emit(&self) -> (out: Vec<Token>)
        ensures
            out.deep_view() == code_tokens(self@),
    {
        match &self.module {
            Some(name) => {
                let mut out = copy_tokens(&self.visibility);
                put_word(&mut out, "mod");
                push_token(&mut out, Token::Ident(name.clone()));
                put_wrapped(&mut out, Delimiter::Brace, &self.emit_items());
                out
            },
            None => self.emit_items(),
        }
    }

    /// The items of the machine: the enumerations and the implementation.
    pub fn emit_items(&self) -> (out: Vec<Token>)
        ensures
            out.deep_view() == items_tokens(self@),
    {
        let mut visibility = blank();
        match &self.module {
            Some(_) => {
                put_word(&mut visibility, "pub");
            },
            None => {
                push_tokens(&mut visibility, &self.visibility);
            },
        }
        let mut head = copy_tokens(&self.doc);
        push_tokens(&mut head, &self.attributes);
        push_tokens(&mut head, &visibility);
        let output_head = if self.outputs.len() == 0 {
            let mut bare = copy_tokens(&self.doc);
            push_tokens(&mut bare, &visibility);
            bare
        } else {
            copy_tokens(&head)
        };
        let mut out = emit_enum(&self.input_name, &head, &declare_members(&self.inputs));
        push_tokens(&mut out, &emit_enum(&self.state_name, &head, &declare_members(&self.states)));
        push_tokens(
            &mut out,
            &emit_enum(&self.output_name, &output_head, &declare_members(&self.outputs)),
        );
        push_tokens(&mut out, &self.emit_impl());
        out
    }
}

impl CompileError {
    /// Emits the diagnostic as code that fails to compile with its text.
    pub fn emit(&self) -> (out: Vec<Token>)
        ensures
            out.deep_view() == error_tokens(*self),
    {
        let mut text = "\"".to_owned();
        text.append(self.message().as_str());
        text.append("\"");
        let mut literal = blank();
        push_token(&mut literal, Token::Literal(text));
        let mut out = blank();
        put_segment(&mut out, "core");
        put_segment(&mut out, "compile_error");
        put_sign(&mut out, '!');
        put_wrapped(&mut out, Delimiter::Brace, &literal);
        out
    }
}

} // verus!
