//! The grammar of a description: a header, then transitions separated by
//! commas. A transition names its initial state and then either one entry
//! or a block of entries in braces.
//!
//! ```text
//! description := attribute* visibility header transitions
//! header      := name "=>" name "=>" name
//!              | Ident "(" Ident ")"
//! name        := Ident generics? | "::" path
//! transitions := ( transition ( "," transition )* ","? )?
//! transition  := variant "=>" ( entry | "{" entry ( "," entry )* ","? "}" )
//! entry       := variant "=>" target ( "[" target "]" )?
//! variant     := Ident ( "(" ( type? "=>" )? pattern ( "if" guard )? ")" )?
//! target      := "_" | Ident ( "(" ( type? "=>" )? expression ")" )?
//! ```
//!
//! Parsing is done in two steps. `read` reads the shape: it finds where
//! each part starts and ends, and fails on a part that is missing. `check`
//! then asks of each Rust fragment (type, pattern, guard, expression,
//! generic parameters, path, visibility, attribute) whether it is one.
//! `parse` does both, the shape first.

use crate::error::{
    error_at, fault_of, judge, outcome, reading, verdict, CompileError, ErrorKind,
};
use crate::syntax::{
    is_attributes, is_generics, is_identifier, is_path, is_visibility, valid_attributes,
    valid_generics, valid_identifier, valid_path, valid_visibility,
};
use crate::token::{
    angle_end, arrow_at, colons_at, copy_range, copy_tokens, find_angle, find_close, find_mark,
    find_top, group_end, has_arrow, has_colons, has_open, has_punct, has_word, ident_at,
    lemma_angle_from_bounds, lemma_close_from_bounds, lemma_mark_from_bounds, open_at, punct_at,
    push_deep, push_tokens, text_of, word_at, Delimiter, Mark, Tok, Token,
};
use crate::variant::{
    final_at, final_fault, unless, variant_at, variant_fault, Final, Variant, VariantView,
};
use vstd::prelude::*;
use vstd::std_specs::convert::FromSpecImpl;

verus! {

/// The output of a transition: what stands in square brackets after the
/// target, if anything does.
#[derive(Clone, Debug)]
pub struct Output(pub Option<Final>);

impl DeepView for Output {
    type V = Option<Option<VariantView>>;

    open spec fn deep_view(&self) -> Option<Option<VariantView>> {
        self.0.deep_view()
    }
}

impl View for Output {
    type V = Option<Option<VariantView>>;

    open spec fn view(&self) -> Option<Option<VariantView>> {
        self.deep_view()
    }
}

impl From<Output> for Option<Final> {
    fn from(output: Output) -> (target: Option<Final>) {
        output.0
    }
}

impl FromSpecImpl<Output> for Option<Final> {
    open spec fn obeys_from_spec() -> bool {
        true
    }

    open spec fn from_spec(output: Output) -> Option<Final> {
        output.0
    }
}

/// A transition without its initial state: on this input, go to this target
/// and emit this output.
#[derive(Clone, Debug)]
pub struct TransitionEntry {
    pub input_value: Variant,
    pub final_state: Final,
    pub output: Option<Final>,
}

/// Mathematical model of a [`TransitionEntry`].
pub struct EntryView {
    pub input_value: VariantView,
    pub final_state: Option<VariantView>,
    pub output: Option<Option<VariantView>>,
}

impl DeepView for TransitionEntry {
    type V = EntryView;

    open spec fn deep_view(&self) -> EntryView {
        EntryView {
            input_value: self.input_value@,
            final_state: self.final_state@,
            output: self.output.deep_view(),
        }
    }
}

impl View for TransitionEntry {
    type V = EntryView;

    open spec fn view(&self) -> EntryView {
        self.deep_view()
    }
}

/// An initial state with the entries that leave it, in the order written.
#[derive(Clone, Debug)]
pub struct TransitionDef {
    pub initial_state: Variant,
    pub transitions: Vec<TransitionEntry>,
}

/// Mathematical model of a [`TransitionDef`].
pub struct DefView {
    pub initial_state: VariantView,
    pub transitions: Seq<EntryView>,
}

impl DeepView for TransitionDef {
    type V = DefView;

    open spec fn deep_view(&self) -> DefView {
        DefView {
            initial_state: self.initial_state@,
            transitions: self.transitions.deep_view(),
        }
    }
}

impl View for TransitionDef {
    type V = DefView;

    open spec fn view(&self) -> DefView {
        self.deep_view()
    }
}

/// How the header names one of the three enumerations: by an identifier,
/// optionally with generic parameters, when the enumeration is to be
/// generated; by a path when it is defined elsewhere.
#[derive(Clone, Debug)]
pub enum ImplementationRequired {
    Yes(String, Vec<Token>),
    No(Vec<Token>),
}

/// Mathematical model of an [`ImplementationRequired`].
pub enum NameView {
    Yes(Seq<char>, Seq<Tok>),
    No(Seq<Tok>),
}

impl DeepView for ImplementationRequired {
    type V = NameView;

    open spec fn deep_view(&self) -> NameView {
        match self {
            ImplementationRequired::Yes(ident, generics) => NameView::Yes(
                ident@,
                generics.deep_view(),
            ),
            ImplementationRequired::No(path) => NameView::No(path.deep_view()),
        }
    }
}

impl View for ImplementationRequired {
    type V = NameView;

    open spec fn view(&self) -> NameView {
        self.deep_view()
    }
}

/// A whole description.
#[derive(Clone, Debug)]
pub struct StateMachineDef {
    /// The documentation attributes of the header.
    pub doc: Vec<Token>,
    /// The visibility qualifier; it applies to every generated item.
    pub visibility: Vec<Token>,
    pub state_name: ImplementationRequired,
    pub input_name: ImplementationRequired,
    pub output_name: ImplementationRequired,
    /// The module that holds the generated items, where the header names
    /// the machine and its initial state.
    pub module: Option<String>,
    /// The initial state, where the header names one.
    pub initial_state: Option<String>,
    /// Index of the first token of the header after attributes and
    /// visibility.
    pub span: usize,
    pub transitions: Vec<TransitionDef>,
    /// The other attributes of the header.
    pub attributes: Vec<Token>,
}

/// Mathematical model of a [`StateMachineDef`].
pub struct MachineDefView {
    pub doc: Seq<Tok>,
    pub visibility: Seq<Tok>,
    pub state_name: NameView,
    pub input_name: NameView,
    pub output_name: NameView,
    pub module: Option<Seq<char>>,
    pub initial_state: Option<Seq<char>>,
    pub span: usize,
    pub transitions: Seq<DefView>,
    pub attributes: Seq<Tok>,
}

impl DeepView for StateMachineDef {
    type V = MachineDefView;

    open spec fn deep_view(&self) -> MachineDefView {
        MachineDefView {
            doc: self.doc.deep_view(),
            visibility: self.visibility.deep_view(),
            state_name: self.state_name@,
            input_name: self.input_name@,
            output_name: self.output_name@,
            module: self.module.deep_view(),
            initial_state: self.initial_state.deep_view(),
            span: self.span,
            transitions: self.transitions.deep_view(),
            attributes: self.attributes.deep_view(),
        }
    }
}

impl View for StateMachineDef {
    type V = MachineDefView;

    open spec fn view(&self) -> MachineDefView {
        self.deep_view()
    }
}

/// Mathematical model of a [`Header`].
pub struct HeaderView {
    pub state_name: NameView,
    pub input_name: NameView,
    pub output_name: NameView,
    pub module: Option<Seq<char>>,
    pub initial_state: Option<Seq<char>>,
}

/// The attribute whose `#` stands at `pos` and whose bracket closes at
/// `close` is a documentation attribute: its content starts with the word
/// `doc`, and no `::` follows that word.
pub open spec fn is_doc(ts: Seq<Tok>, pos: int, close: int) -> bool {
    word_at(ts, pos + 2, close, "doc"@) && !colons_at(ts, pos + 3, close)
}

/// The attributes that start at `pos`, as documentation attributes, other
/// attributes, and the position after the last one. An attribute is `#`
/// followed by a group in square brackets.
pub open spec fn attributes_at(ts: Seq<Tok>, pos: int, hi: int) -> Result<
    (Seq<Tok>, Seq<Tok>, int),
    CompileError,
>
    decreases hi - pos,
{
    if punct_at(ts, pos, hi, '#') && open_at(ts, pos + 1, hi, Delimiter::Bracket) {
        match group_end(ts, pos + 1, hi) {
            None => Err(error_at(ErrorKind::Unterminated, pos + 1)),
            Some(c) => {
                proof {
                    lemma_close_from_bounds(ts, pos + 2, hi, 0);
                }
                match attributes_at(ts, c + 1, hi) {
                    Err(e) => Err(e),
                    Ok((doc, attributes, next)) => if is_doc(ts, pos, c) {
                        Ok((ts.subrange(pos, c + 1) + doc, attributes, next))
                    } else {
                        Ok((doc, ts.subrange(pos, c + 1) + attributes, next))
                    },
                }
            },
        }
    } else {
        Ok((Seq::empty(), Seq::empty(), pos))
    }
}

/// Where the visibility qualifier that starts at `pos` ends: after `pub`
/// and, if they follow, `(crate)`, `(self)`, `(super)` or a group that
/// starts with `in`. Without `pub` the qualifier is empty.
pub open spec fn visibility_end(ts: Seq<Tok>, pos: int, hi: int) -> int {
    if !word_at(ts, pos, hi, "pub"@) {
        pos
    } else if !open_at(ts, pos + 1, hi, Delimiter::Parenthesis) {
        pos + 1
    } else if (word_at(ts, pos + 2, hi, "crate"@) || word_at(ts, pos + 2, hi, "self"@) || word_at(
        ts,
        pos + 2,
        hi,
        "super"@,
    )) && pos + 3 < hi && ts[pos + 3] == Tok::Close(Delimiter::Parenthesis) {
        pos + 4
    } else if word_at(ts, pos + 2, hi, "in"@) {
        match group_end(ts, pos + 1, hi) {
            Some(c) => c + 1,
            None => pos + 1,
        }
    } else {
        pos + 1
    }
}

/// Where the segment of a path that starts at `pos` ends: after the
/// identifier and, if they follow, its generic arguments in angle brackets.
pub open spec fn segment_end(ts: Seq<Tok>, pos: int, hi: int) -> int {
    match angle_end(ts, pos + 1, hi) {
        Some(c) => c + 1,
        None => pos + 1,
    }
}

/// Where the path that starts at `pos` ends: after its first segment and
/// every `::` with a segment that follows.
pub open spec fn path_end(ts: Seq<Tok>, pos: int, hi: int) -> int
    decreases hi - pos,
{
    if !ident_at(ts, pos, hi) {
        pos
    } else {
        let after = segment_end(ts, pos, hi);
        if colons_at(ts, after, hi) && ident_at(ts, after + 2, hi) {
            proof {
                lemma_angle_from_bounds(ts, pos + 2, hi, 0, 1);
            }
            path_end(ts, after + 2, hi)
        } else {
            after
        }
    }
}

/// The name of an enumeration at `pos`, and the position after it: `::`
/// and a path, or an identifier with optional generic parameters in angle
/// brackets.
pub open spec fn name_at(ts: Seq<Tok>, pos: int, hi: int) -> Result<(NameView, int), CompileError> {
    if colons_at(ts, pos, hi) {
        if ident_at(ts, pos + 2, hi) {
            let end = path_end(ts, pos + 2, hi);
            Ok((NameView::No(ts.subrange(pos + 2, end)), end))
        } else {
            Err(error_at(ErrorKind::ExpectedIdent, pos + 2))
        }
    } else if !ident_at(ts, pos, hi) {
        Err(error_at(ErrorKind::ExpectedIdent, pos))
    } else if punct_at(ts, pos + 1, hi, '<') {
        match angle_end(ts, pos + 1, hi) {
            Some(c) => Ok((NameView::Yes(ts[pos]->Ident_0, ts.subrange(pos + 1, c + 1)), c + 1)),
            None => Err(error_at(ErrorKind::Unterminated, pos + 1)),
        }
    } else {
        Ok((NameView::Yes(ts[pos]->Ident_0, Seq::empty()), pos + 1))
    }
}

/// The header at `pos`, and the position after it. Either the names of
/// the state, input and output enumerations, separated by `=>`; or the
/// name of the machine followed by the initial state in parentheses, in
/// which case the enumerations are called `State`, `Input` and `Output`
/// and stand in a module that has the name of the machine.
pub open spec fn header_at(ts: Seq<Tok>, pos: int, hi: int) -> Result<
    (HeaderView, int),
    CompileError,
> {
    if ident_at(ts, pos, hi) && open_at(ts, pos + 1, hi, Delimiter::Parenthesis) {
        match group_end(ts, pos + 1, hi) {
            None => Err(error_at(ErrorKind::Unterminated, pos + 1)),
            Some(c) => if !ident_at(ts, pos + 2, c) {
                Err(error_at(ErrorKind::ExpectedIdent, pos + 2))
            } else if c != pos + 3 {
                Err(error_at(ErrorKind::UnexpectedToken, pos + 3))
            } else {
                Ok(
                    (
                        HeaderView {
                            state_name: NameView::Yes("State"@, Seq::empty()),
                            input_name: NameView::Yes("Input"@, Seq::empty()),
                            output_name: NameView::Yes("Output"@, Seq::empty()),
                            module: Some(ts[pos]->Ident_0),
                            initial_state: Some(ts[pos + 2]->Ident_0),
                        },
                        pos + 4,
                    ),
                )
            },
        }
    } else {
        match name_at(ts, pos, hi) {
            Err(e) => Err(e),
            Ok((state_name, at1)) => if !arrow_at(ts, at1, hi) {
                Err(error_at(ErrorKind::MissingArrow, at1))
            } else {
                match name_at(ts, at1 + 2, hi) {
                    Err(e) => Err(e),
                    Ok((input_name, at2)) => if !arrow_at(ts, at2, hi) {
                        Err(error_at(ErrorKind::MissingArrow, at2))
                    } else {
                        match name_at(ts, at2 + 2, hi) {
                            Err(e) => Err(e),
                            Ok((output_name, at3)) => Ok(
                                (
                                    HeaderView {
                                        state_name,
                                        input_name,
                                        output_name,
                                        module: None,
                                        initial_state: None,
                                    },
                                    at3,
                                ),
                            ),
                        }
                    },
                }
            },
        }
    }
}

/// An output at `pos`, and the position after it: a target in square
/// brackets that fills them, or nothing.
pub open spec fn output_at(ts: Seq<Tok>, pos: int, hi: int) -> Result<
    (Option<Option<VariantView>>, int),
    CompileError,
> {
    if open_at(ts, pos, hi, Delimiter::Bracket) {
        match group_end(ts, pos, hi) {
            None => Err(error_at(ErrorKind::Unterminated, pos)),
            Some(c) => match final_at(ts, pos + 1, c) {
                Err(e) => Err(e),
                Ok((f, next)) => if next == c {
                    Ok((Some(f), c + 1))
                } else {
                    Err(error_at(ErrorKind::UnexpectedToken, next))
                },
            },
        }
    } else {
        Ok((None, pos))
    }
}

/// An entry at `pos`, and the position after it: input, `=>`, target,
/// optional output.
#[verifier::opaque]
pub open spec fn entry_at(ts: Seq<Tok>, pos: int, hi: int) -> Result<
    (EntryView, int),
    CompileError,
> {
    match variant_at(ts, pos, hi) {
        Err(e) => Err(e),
        Ok((input_value, at1)) => if !arrow_at(ts, at1, hi) {
            Err(error_at(ErrorKind::MissingArrow, at1))
        } else {
            match final_at(ts, at1 + 2, hi) {
                Err(e) => Err(e),
                Ok((final_state, at2)) => match output_at(ts, at2, hi) {
                    Err(e) => Err(e),
                    Ok((output, at3)) => Ok((EntryView { input_value, final_state, output }, at3)),
                },
            }
        },
    }
}

/// The entry that fills `lo..hi`.
pub open spec fn entry_in(ts: Seq<Tok>, lo: int, hi: int) -> Result<EntryView, CompileError> {
    match entry_at(ts, lo, hi) {
        Err(e) => Err(e),
        Ok((entry, next)) => if next == hi {
            Ok(entry)
        } else {
            Err(error_at(ErrorKind::UnexpectedToken, next))
        },
    }
}

/// Where the first chunk of `lo..hi` ends: at the first top-level comma, or
/// at `hi` where there is none.
pub open spec fn chunk_end(ts: Seq<Tok>, lo: int, hi: int) -> int {
    match find_mark(ts, lo, hi, Mark::Comma) {
        Some(k) => k,
        None => hi,
    }
}

/// The entries that fill `lo..hi`: one in each chunk between top-level
/// commas. A comma may follow the last entry.
pub open spec fn entries_in(ts: Seq<Tok>, lo: int, hi: int) -> Result<Seq<EntryView>, CompileError>
    decreases hi - lo,
{
    if lo >= hi {
        Ok(Seq::empty())
    } else {
        let k = chunk_end(ts, lo, hi);
        match entry_in(ts, lo, k) {
            Err(e) => Err(e),
            Ok(entry) => if k >= hi {
                Ok(seq![entry])
            } else {
                proof {
                    lemma_mark_from_bounds(ts, lo, hi, 0, Mark::Comma);
                }
                match entries_in(ts, k + 1, hi) {
                    Err(e) => Err(e),
                    Ok(rest) => Ok(seq![entry] + rest),
                }
            },
        }
    }
}

/// A transition at `pos`, and the position after it: the initial state,
/// `=>`, then a block of entries in braces or a single entry. A block must
/// hold at least one entry.
#[verifier::opaque]
pub open spec fn def_at(ts: Seq<Tok>, pos: int, hi: int) -> Result<(DefView, int), CompileError> {
    match variant_at(ts, pos, hi) {
        Err(e) => Err(e),
        Ok((initial_state, at1)) => if !arrow_at(ts, at1, hi) {
            Err(error_at(ErrorKind::MissingArrow, at1))
        } else if open_at(ts, at1 + 2, hi, Delimiter::Brace) {
            match group_end(ts, at1 + 2, hi) {
                None => Err(error_at(ErrorKind::Unterminated, at1 + 2)),
                Some(c) => match entries_in(ts, at1 + 3, c) {
                    Err(e) => Err(e),
                    Ok(transitions) => if transitions.len() == 0 {
                        Err(error_at(ErrorKind::EmptyBlock, pos))
                    } else {
                        Ok((DefView { initial_state, transitions }, c + 1))
                    },
                },
            }
        } else {
            match entry_at(ts, at1 + 2, hi) {
                Err(e) => Err(e),
                Ok((entry, next)) => Ok(
                    (DefView { initial_state, transitions: seq![entry] }, next),
                ),
            }
        },
    }
}

/// The transition that fills `lo..hi`.
pub open spec fn def_in(ts: Seq<Tok>, lo: int, hi: int) -> Result<DefView, CompileError> {
    match def_at(ts, lo, hi) {
        Err(e) => Err(e),
        Ok((def, next)) => if next == hi {
            Ok(def)
        } else {
            Err(error_at(ErrorKind::UnexpectedToken, next))
        },
    }
}

/// The transitions that fill `lo..hi`: one in each chunk between top-level
/// commas. A comma may follow the last transition.
pub open spec fn defs_in(ts: Seq<Tok>, lo: int, hi: int) -> Result<Seq<DefView>, CompileError>
    decreases hi - lo,
{
    if lo >= hi {
        Ok(Seq::empty())
    } else {
        let k = chunk_end(ts, lo, hi);
        match def_in(ts, lo, k) {
            Err(e) => Err(e),
            Ok(def) => if k >= hi {
                Ok(seq![def])
            } else {
                proof {
                    lemma_mark_from_bounds(ts, lo, hi, 0, Mark::Comma);
                }
                match defs_in(ts, k + 1, hi) {
                    Err(e) => Err(e),
                    Ok(rest) => Ok(seq![def] + rest),
                }
            },
        }
    }
}

/// The description that the whole token sequence spells: attributes,
/// visibility, header, transitions.
pub open spec fn machine_of(ts: Seq<Tok>) -> Result<MachineDefView, CompileError> {
    let hi = ts.len() as int;
    match attributes_at(ts, 0, hi) {
        Err(e) => Err(e),
        Ok((doc, attributes, at1)) => {
            let at2 = visibility_end(ts, at1, hi);
            match header_at(ts, at2, hi) {
                Err(e) => Err(e),
                Ok((header, at3)) => match defs_in(ts, at3, hi) {
                    Err(e) => Err(e),
                    Ok(transitions) => Ok(
                        MachineDefView {
                            doc,
                            visibility: ts.subrange(at1, at2),
                            state_name: header.state_name,
                            input_name: header.input_name,
                            output_name: header.output_name,
                            module: header.module,
                            initial_state: header.initial_state,
                            span: at2 as usize,
                            transitions,
                            attributes,
                        },
                    ),
                },
            }
        },
    }
}

/// What is wrong with an entry, if anything is: the first fault among its
/// input, its target and its output.
pub open spec fn entry_fault(entry: EntryView) -> Option<CompileError> {
    if variant_fault(entry.input_value) is Some {
        variant_fault(entry.input_value)
    } else if final_fault(entry.final_state) is Some {
        final_fault(entry.final_state)
    } else {
        match entry.output {
            Some(f) => final_fault(f),
            None => None,
        }
    }
}

/// The fault of the first faulty entry from index `from` on.
pub open spec fn entries_fault(entries: Seq<EntryView>, from: int) -> Option<CompileError>
    decreases entries.len() - from,
{
    if from < 0 || from >= entries.len() {
        None
    } else if entry_fault(entries[from]) is Some {
        entry_fault(entries[from])
    } else {
        entries_fault(entries, from + 1)
    }
}

/// What is wrong with a transition, if anything is: the fault of its
/// initial state, else that of its first faulty entry.
pub open spec fn def_fault(def: DefView) -> Option<CompileError> {
    if variant_fault(def.initial_state) is Some {
        variant_fault(def.initial_state)
    } else {
        entries_fault(def.transitions, 0)
    }
}

/// The fault of the first faulty transition from index `from` on.
pub open spec fn defs_fault(defs: Seq<DefView>, from: int) -> Option<CompileError>
    decreases defs.len() - from,
{
    if from < 0 || from >= defs.len() {
        None
    } else if def_fault(defs[from]) is Some {
        def_fault(defs[from])
    } else {
        defs_fault(defs, from + 1)
    }
}

/// What is wrong with the name of an enumeration, if anything is. The
/// fault is reported at `span`.
pub open spec fn name_fault(name: NameView, span: usize) -> Option<CompileError> {
    match name {
        NameView::Yes(ident, generics) => fault_of(
            span,
            is_identifier(ident),
            generics.len() == 0 || is_generics(text_of(generics)),
            ErrorKind::MalformedHeader,
        ),
        NameView::No(path) => fault_of(
            span,
            true,
            is_path(text_of(path)),
            ErrorKind::MalformedHeader,
        ),
    }
}

/// What is wrong with the header, if anything is: attributes first, then
/// the visibility, the three names in their order, the name of the module
/// and the initial state.
pub open spec fn header_fault(def: MachineDefView) -> Option<CompileError> {
    if !is_attributes(text_of(def.doc)) || !is_attributes(text_of(def.attributes)) {
        Some(error_at(ErrorKind::MalformedHeader, 0))
    } else if !is_visibility(text_of(def.visibility)) {
        Some(error_at(ErrorKind::MalformedHeader, def.span as int))
    } else {
        names_fault(header_of(def), def.span)
    }
}

/// The names that the header of a description has given.
pub open spec fn header_of(def: MachineDefView) -> HeaderView {
    HeaderView {
        state_name: def.state_name,
        input_name: def.input_name,
        output_name: def.output_name,
        module: def.module,
        initial_state: def.initial_state,
    }
}

/// What is wrong with the names of a header, if anything is: the three
/// names of the enumerations in their order, then the name of the module
/// and the initial state. The fault is reported at `span`.
pub open spec fn names_fault(header: HeaderView, span: usize) -> Option<CompileError> {
    if name_fault(header.state_name, span) is Some {
        name_fault(header.state_name, span)
    } else if name_fault(header.input_name, span) is Some {
        name_fault(header.input_name, span)
    } else if name_fault(header.output_name, span) is Some {
        name_fault(header.output_name, span)
    } else if header.module matches Some(module) && !is_identifier(module) {
        Some(error_at(ErrorKind::ExpectedIdent, span as int))
    } else if header.initial_state matches Some(initial) && !is_identifier(initial) {
        Some(error_at(ErrorKind::ExpectedIdent, span as int))
    } else {
        None
    }
}

/// What is wrong with an output, if anything is: the fault of the target
/// that names it.
pub open spec fn output_fault(output: Option<Option<VariantView>>) -> Option<CompileError> {
    match output {
        Some(target) => final_fault(target),
        None => None,
    }
}

/// An output at `pos` whose Rust fragments are what they must be, and the
/// position after it. What is wrong with the shape is reported first.
pub open spec fn output_parsed(ts: Seq<Tok>, pos: int, hi: int) -> Result<
    (Option<Option<VariantView>>, int),
    CompileError,
> {
    match output_at(ts, pos, hi) {
        Ok((output, next)) => unless((output, next), output_fault(output)),
        Err(e) => Err(e),
    }
}

/// An entry at `pos` whose Rust fragments are what they must be, and the
/// position after it. What is wrong with the shape is reported first.
pub open spec fn entry_parsed(ts: Seq<Tok>, pos: int, hi: int) -> Result<
    (EntryView, int),
    CompileError,
> {
    match entry_at(ts, pos, hi) {
        Ok((entry, next)) => unless((entry, next), entry_fault(entry)),
        Err(e) => Err(e),
    }
}

/// A transition at `pos` whose Rust fragments are what they must be, and
/// the position after it. What is wrong with the shape is reported first.
pub open spec fn def_parsed(ts: Seq<Tok>, pos: int, hi: int) -> Result<
    (DefView, int),
    CompileError,
> {
    match def_at(ts, pos, hi) {
        Ok((def, next)) => unless((def, next), def_fault(def)),
        Err(e) => Err(e),
    }
}

/// The header at `pos` whose names are what they must be, and the position
/// after it. What is wrong with the shape is reported first; a name that is
/// not what it must be is reported at `pos`.
pub open spec fn header_parsed(ts: Seq<Tok>, pos: int, hi: int) -> Result<
    (HeaderView, int),
    CompileError,
> {
    match header_at(ts, pos, hi) {
        Ok((header, next)) => unless((header, next), names_fault(header, pos as usize)),
        Err(e) => Err(e),
    }
}

/// The description that the whole token sequence spells, with Rust
/// fragments that are what they must be. What is wrong with the shape is
/// reported first, then what is wrong with the fragments.
pub open spec fn machine_parsed(ts: Seq<Tok>) -> Result<MachineDefView, CompileError> {
    match machine_of(ts) {
        Ok(def) => unless(def, machine_fault(def)),
        Err(e) => Err(e),
    }
}

/// What is wrong with the Rust fragments of a description, if anything is:
/// the fault of the header, else that of the first faulty transition.
pub open spec fn machine_fault(def: MachineDefView) -> Option<CompileError> {
    if header_fault(def) is Some {
        header_fault(def)
    } else {
        defs_fault(def.transitions, 0)
    }
}

/// Reads the attributes that start at `pos`.
fn read_attributes(tokens: &Vec<Token>, pos: usize, hi: usize) -> (r: Result<
    (Vec<Token>, Vec<Token>, usize),
    CompileError,
>)
    ensures
        match r {
            Ok((doc, attributes, next)) => attributes_at(
                tokens.deep_view(),
                pos as int,
                hi as int,
            ) == Ok::<(Seq<Tok>, Seq<Tok>, int), CompileError>(
                (doc.deep_view(), attributes.deep_view(), next as int),
            ) && pos <= next && (next <= hi || next == pos),
            Err(e) => attributes_at(tokens.deep_view(), pos as int, hi as int) == Err::<
                (Seq<Tok>, Seq<Tok>, int),
                CompileError,
            >(e),
        },
{
    let ghost ts = tokens.deep_view();
    let mut doc: Vec<Token> = Vec::new();
    let mut attributes: Vec<Token> = Vec::new();
    let mut p: usize = pos;
    loop
        invariant
            ts == tokens.deep_view(),
            pos <= p,
            p <= hi || p == pos,
            attributes_at(ts, pos as int, hi as int) == match attributes_at(
                ts,
                p as int,
                hi as int,
            ) {
                Err(e) => Err::<(Seq<Tok>, Seq<Tok>, int), CompileError>(e),
                Ok((d, a, next)) => Ok((doc.deep_view() + d, attributes.deep_view() + a, next)),
            },
        decreases hi - p,
    {
        if !has_punct(tokens, p, hi, '#') || !has_open(tokens, p + 1, hi, Delimiter::Bracket) {
            return Ok((doc, attributes, p));
        }
        match find_close(tokens, p + 1, hi) {
            None => {
                return Err(CompileError { kind: ErrorKind::Unterminated, position: p + 1 });
            },
            Some(c) => {
                let documents = has_word(tokens, p + 2, c, "doc") && !has_colons(tokens, p + 3, c);
                let attribute = copy_range(tokens, p, c + 1);
                let ghost doc_before = doc.deep_view();
                let ghost attributes_before = attributes.deep_view();
                if documents {
                    push_tokens(&mut doc, &attribute);
                } else {
                    push_tokens(&mut attributes, &attribute);
                }
                proof {
                    match attributes_at(ts, c + 1, hi as int) {
                        Ok((d, a, _)) => {
                            if documents {
                                assert(doc_before + (attribute.deep_view() + d) =~= doc.deep_view()
                                    + d);
                            } else {
                                assert(attributes_before + (attribute.deep_view() + a)
                                    =~= attributes.deep_view() + a);
                            }
                        },
                        Err(_) => {},
                    }
                }
                p = c + 1;
            },
        }
    }
}

/// Finds where the visibility qualifier that starts at `pos` ends.
fn read_visibility(tokens: &Vec<Token>, pos: usize, hi: usize) -> (end: usize)
    ensures
        end == visibility_end(tokens.deep_view(), pos as int, hi as int),
        pos <= end,
        end <= hi || end == pos,
{
    if !has_word(tokens, pos, hi, "pub") {
        pos
    } else if !has_open(tokens, pos + 1, hi, Delimiter::Parenthesis) {
        pos + 1
    } else if (has_word(tokens, pos + 2, hi, "crate") || has_word(tokens, pos + 2, hi, "self")
        || has_word(tokens, pos + 2, hi, "super")) && hi - pos > 3 && tokens[pos + 3].closes(
        Delimiter::Parenthesis,
    ) {
        pos + 4
    } else if has_word(tokens, pos + 2, hi, "in") {
        match find_close(tokens, pos + 1, hi) {
            Some(c) => c + 1,
            None => pos + 1,
        }
    } else {
        pos + 1
    }
}

/// Whether the token at `pos` is an identifier or keyword.
fn has_ident(tokens: &Vec<Token>, pos: usize, hi: usize) -> (b: bool)
    ensures
        b == ident_at(tokens.deep_view(), pos as int, hi as int),
{
    hi <= tokens.len() && pos < hi && match &tokens[pos] {
        Token::Ident(_) => true,
        _ => false,
    }
}

/// The text of the identifier at `pos`.
fn ident_text(tokens: &Vec<Token>, pos: usize, hi: usize) -> (name: String)
    requires
        ident_at(tokens.deep_view(), pos as int, hi as int),
    ensures
        name@ == tokens.deep_view()[pos as int]->Ident_0,
{
    match &tokens[pos] {
        Token::Ident(s) => s.clone(),
        _ => String::new(),
    }
}

/// Finds where the path that starts at `pos` ends.
fn read_path(tokens: &Vec<Token>, pos: usize, hi: usize) -> (end: usize)
    ensures
        end == path_end(tokens.deep_view(), pos as int, hi as int),
        pos <= end,
        end <= hi || end == pos,
{
    let ghost ts = tokens.deep_view();
    let mut p: usize = pos;
    loop
        invariant
            ts == tokens.deep_view(),
            pos <= p,
            p <= hi || p == pos,
            path_end(ts, pos as int, hi as int) == path_end(ts, p as int, hi as int),
        decreases hi - p,
    {
        if !has_ident(tokens, p, hi) {
            return p;
        }
        let after = match find_angle(tokens, p + 1, hi) {
            Some(c) => c + 1,
            None => p + 1,
        };
        if has_colons(tokens, after, hi) && has_ident(tokens, after + 2, hi) {
            p = after + 2;
        } else {
            return after;
        }
    }
}

/// Reads the name of an enumeration at `pos`.
fn read_name(tokens: &Vec<Token>, pos: usize, hi: usize) -> (r: Result<
    (ImplementationRequired, usize),
    CompileError,
>)
    ensures
        reading(r) == name_at(tokens.deep_view(), pos as int, hi as int),
        r matches Ok((_, next)) ==> pos < next <= hi,
{
    if has_colons(tokens, pos, hi) {
        if has_ident(tokens, pos + 2, hi) {
            let end = read_path(tokens, pos + 2, hi);
            Ok((ImplementationRequired::No(copy_range(tokens, pos + 2, end)), end))
        } else {
            Err(CompileError { kind: ErrorKind::ExpectedIdent, position: pos + 2 })
        }
    } else if !has_ident(tokens, pos, hi) {
        Err(CompileError { kind: ErrorKind::ExpectedIdent, position: pos })
    } else if has_punct(tokens, pos + 1, hi, '<') {
        match find_angle(tokens, pos + 1, hi) {
            Some(c) => Ok(
                (
                    ImplementationRequired::Yes(
                        ident_text(tokens, pos, hi),
                        copy_range(tokens, pos + 1, c + 1),
                    ),
                    c + 1,
                ),
            ),
            None => Err(CompileError { kind: ErrorKind::Unterminated, position: pos + 1 }),
        }
    } else {
        let generics: Vec<Token> = Vec::new();
        assert(generics.deep_view() =~= Seq::<Tok>::empty());
        Ok((ImplementationRequired::Yes(ident_text(tokens, pos, hi), generics), pos + 1))
    }
}

/// The names that a header gives, and the initial state if it gives one.
#[derive(Clone, Debug)]
pub struct Header {
    pub state_name: ImplementationRequired,
    pub input_name: ImplementationRequired,
    pub output_name: ImplementationRequired,
    pub module: Option<String>,
    pub initial_state: Option<String>,
}

impl DeepView for Header {
    type V = HeaderView;

    open spec fn deep_view(&self) -> HeaderView {
        HeaderView {
            state_name: self.state_name@,
            input_name: self.input_name@,
            output_name: self.output_name@,
            module: self.module.deep_view(),
            initial_state: self.initial_state.deep_view(),
        }
    }
}

/// Checks the names of a header: the three names of the enumerations in
/// their order, then the name of the module and the initial state.
fn check_names(
    state_name: &ImplementationRequired,
    input_name: &ImplementationRequired,
    output_name: &ImplementationRequired,
    module: &Option<String>,
    initial_state: &Option<String>,
    span: usize,
) -> (r: Result<(), CompileError>)
    ensures
        r == verdict(
            names_fault(
                HeaderView {
                    state_name: state_name@,
                    input_name: input_name@,
                    output_name: output_name@,
                    module: module.deep_view(),
                    initial_state: initial_state.deep_view(),
                },
                span,
            ),
        ),
{
    match state_name.check(span) {
        Err(e) => { return Err(e); },
        Ok(()) => {},
    }
    match input_name.check(span) {
        Err(e) => { return Err(e); },
        Ok(()) => {},
    }
    match output_name.check(span) {
        Err(e) => { return Err(e); },
        Ok(()) => {},
    }
    let module_ok = match module {
        Some(name) => valid_identifier(name),
        None => true,
    };
    let initial_ok = match initial_state {
        Some(name) => valid_identifier(name),
        None => true,
    };
    judge(span, module_ok && initial_ok, true, ErrorKind::MalformedHeader)
}

impl Header {
    /// Checks the names of the header. A fault is reported at `span`.
    pub fn check(&self, span: usize) -> (r: Result<(), CompileError>)
        ensures
            r == verdict(names_fault(self.deep_view(), span)),
    {
        check_names(
            &self.state_name,
            &self.input_name,
            &self.output_name,
            &self.module,
            &self.initial_state,
            span,
        )
    }

    /// Parses the header at `pos`, looking no further than `hi`: reads its
    /// shape, then checks its names. Returns it and the position after it.
    pub fn parse(tokens: &Vec<Token>, pos: usize, hi: usize) -> (r: Result<
        (Header, usize),
        CompileError,
    >)
        ensures
            reading(r) == header_parsed(tokens.deep_view(), pos as int, hi as int),
            r matches Ok((_, next)) ==> pos < next <= hi,
    {
        match Header::read(tokens, pos, hi) {
            Err(e) => Err(e),
            Ok((header, next)) => match header.check(pos) {
                Err(e) => Err(e),
                Ok(()) => Ok((header, next)),
            },
        }
    }

    /// Reads the header at `pos`, looking no further than `hi`. Returns it
    /// and the position after it.
    pub fn read(tokens: &Vec<Token>, pos: usize, hi: usize) -> (r: Result<
        (Header, usize),
        CompileError,
    >)
        ensures
            reading(r) == header_at(tokens.deep_view(), pos as int, hi as int),
            r matches Ok((_, next)) ==> pos < next <= hi,
    {
        if has_ident(tokens, pos, hi) && has_open(tokens, pos + 1, hi, Delimiter::Parenthesis) {
            match find_close(tokens, pos + 1, hi) {
                None => Err(CompileError { kind: ErrorKind::Unterminated, position: pos + 1 }),
                Some(c) => if !has_ident(tokens, pos + 2, c) {
                    Err(CompileError { kind: ErrorKind::ExpectedIdent, position: pos + 2 })
                } else if c != pos + 3 {
                    Err(CompileError { kind: ErrorKind::UnexpectedToken, position: pos + 3 })
                } else {
                    let none_state: Vec<Token> = Vec::new();
                    let none_input: Vec<Token> = Vec::new();
                    let none_output: Vec<Token> = Vec::new();
                    assert(none_state.deep_view() =~= Seq::<Tok>::empty());
                    Ok(
                        (
                            Header {
                                state_name: ImplementationRequired::Yes(
                                    "State".to_owned(),
                                    none_state,
                                ),
                                input_name: ImplementationRequired::Yes(
                                    "Input".to_owned(),
                                    none_input,
                                ),
                                output_name: ImplementationRequired::Yes(
                                    "Output".to_owned(),
                                    none_output,
                                ),
                                module: Some(ident_text(tokens, pos, hi)),
                                initial_state: Some(ident_text(tokens, pos + 2, c)),
                            },
                            pos + 4,
                        ),
                    )
                },
            }
        } else {
            let (state_name, at1) = match read_name(tokens, pos, hi) {
                Ok(found) => found,
                Err(e) => { return Err(e); },
            };
            if !has_arrow(tokens, at1, hi) {
                return Err(CompileError { kind: ErrorKind::MissingArrow, position: at1 });
            }
            let (input_name, at2) = match read_name(tokens, at1 + 2, hi) {
                Ok(found) => found,
                Err(e) => { return Err(e); },
            };
            if !has_arrow(tokens, at2, hi) {
                return Err(CompileError { kind: ErrorKind::MissingArrow, position: at2 });
            }
            let (output_name, at3) = match read_name(tokens, at2 + 2, hi) {
                Ok(found) => found,
                Err(e) => { return Err(e); },
            };
            let header = Header {
                state_name,
                input_name,
                output_name,
                module: None,
                initial_state: None,
            };
            Ok((header, at3))
        }
    }
}

impl Output {
    /// Checks the Rust fragments of the output.
    pub fn check(&self) -> (r: Result<(), CompileError>)
        ensures
            r == verdict(output_fault(self@)),
    {
        match &self.0 {
            Some(target) => target.check(),
            None => Ok(()),
        }
    }

    /// Parses an optional output at `pos`, looking no further than `hi`:
    /// reads its shape, then checks its Rust fragments. Returns it and the
    /// position after it.
    pub fn parse(tokens: &Vec<Token>, pos: usize, hi: usize) -> (r: Result<
        (Output, usize),
        CompileError,
    >)
        ensures
            reading(r) == output_parsed(tokens.deep_view(), pos as int, hi as int),
            r matches Ok((_, next)) ==> pos <= next && (next <= hi || next == pos),
    {
        match Output::read(tokens, pos, hi) {
            Err(e) => Err(e),
            Ok((output, next)) => match output.check() {
                Err(e) => Err(e),
                Ok(()) => Ok((output, next)),
            },
        }
    }

    /// Reads an optional output at `pos`, looking no further than `hi`.
    /// Returns it and the position after it.
    pub fn read(tokens: &Vec<Token>, pos: usize, hi: usize) -> (r: Result<
        (Output, usize),
        CompileError,
    >)
        ensures
            reading(r) == output_at(tokens.deep_view(), pos as int, hi as int),
            r matches Ok((_, next)) ==> pos <= next && (next <= hi || next == pos),
    {
        if has_open(tokens, pos, hi, Delimiter::Bracket) {
            match find_close(tokens, pos, hi) {
                None => Err(CompileError { kind: ErrorKind::Unterminated, position: pos }),
                Some(c) => match Final::read(tokens, pos + 1, c) {
                    Err(e) => Err(e),
                    Ok((f, next)) => if next == c {
                        Ok((Output(Some(f)), c + 1))
                    } else {
                        Err(CompileError { kind: ErrorKind::UnexpectedToken, position: next })
                    },
                },
            }
        } else {
            Ok((Output(None), pos))
        }
    }

}

impl TransitionEntry {
    /// Parses an entry at `pos`, looking no further than `hi`: reads its
    /// shape, then checks the Rust fragments of input, target and output.
    /// Returns it and the position after it.
    pub fn parse(tokens: &Vec<Token>, pos: usize, hi: usize) -> (r: Result<
        (TransitionEntry, usize),
        CompileError,
    >)
        ensures
            reading(r) == entry_parsed(tokens.deep_view(), pos as int, hi as int),
            r matches Ok((_, next)) ==> pos < next <= hi,
    {
        match TransitionEntry::read(tokens, pos, hi) {
            Err(e) => Err(e),
            Ok((entry, next)) => match entry.check() {
                Err(e) => Err(e),
                Ok(()) => Ok((entry, next)),
            },
        }
    }

    /// Reads an entry at `pos`, looking no further than `hi`: input, `=>`,
    /// target, optional output. Returns it and the position after it.
    pub fn read(tokens: &Vec<Token>, pos: usize, hi: usize) -> (r: Result<
        (TransitionEntry, usize),
        CompileError,
    >)
        ensures
            reading(r) == entry_at(tokens.deep_view(), pos as int, hi as int),
            r matches Ok((_, next)) ==> pos < next <= hi,
    {
        reveal(entry_at);
        let (input_value, at1) = match Variant::read(tokens, pos, hi) {
            Ok(found) => found,
            Err(e) => { return Err(e); },
        };
        if !has_arrow(tokens, at1, hi) {
            return Err(CompileError { kind: ErrorKind::MissingArrow, position: at1 });
        }
        let (final_state, at2) = match Final::read(tokens, at1 + 2, hi) {
            Ok(found) => found,
            Err(e) => { return Err(e); },
        };
        let (output, at3) = match Output::read(tokens, at2, hi) {
            Ok(found) => found,
            Err(e) => { return Err(e); },
        };
        let output = Option::<Final>::from(output);
        Ok((TransitionEntry { input_value, final_state, output }, at3))
    }

    /// Checks the Rust fragments of the entry: input, target, output.
    pub fn check(&self) -> (r: Result<(), CompileError>)
        ensures
            r == verdict(entry_fault(self@)),
    {
        match self.input_value.check() {
            Err(e) => { return Err(e); },
            Ok(()) => {},
        }
        match self.final_state.check() {
            Err(e) => { return Err(e); },
            Ok(()) => {},
        }
        match &self.output {
            Some(f) => f.check(),
            None => Ok(()),
        }
    }

    /// Reads the entry that fills `lo..hi`.
    pub fn read_all(tokens: &Vec<Token>, lo: usize, hi: usize) -> (r: Result<
        TransitionEntry,
        CompileError,
    >)
        ensures
            outcome(r) == entry_in(tokens.deep_view(), lo as int, hi as int),
    {
        match TransitionEntry::read(tokens, lo, hi) {
            Err(e) => Err(e),
            Ok((entry, next)) => if next == hi {
                Ok(entry)
            } else {
                Err(CompileError { kind: ErrorKind::UnexpectedToken, position: next })
            },
        }
    }

    /// Reads the entries that fill `lo..hi`, separated by commas.
    pub fn read_list(tokens: &Vec<Token>, lo: usize, hi: usize) -> (r: Result<
        Vec<TransitionEntry>,
        CompileError,
    >)
        ensures
            outcome(r) == entries_in(tokens.deep_view(), lo as int, hi as int),
    {
        let ghost ts = tokens.deep_view();
        let mut entries: Vec<TransitionEntry> = Vec::new();
        let mut p: usize = lo;
        while p < hi
            invariant
                ts == tokens.deep_view(),
                lo <= p,
                entries_in(ts, lo as int, hi as int) == match entries_in(ts, p as int, hi as int) {
                    Err(e) => Err::<Seq<EntryView>, CompileError>(e),
                    Ok(rest) => Ok(entries.deep_view() + rest),
                },
            decreases hi - p,
        {
            let k = match find_top(tokens, p, hi, Mark::Comma) {
                Some(k) => k,
                None => hi,
            };
            let entry = match TransitionEntry::read_all(tokens, p, k) {
                Ok(entry) => entry,
                Err(e) => { return Err(e); },
            };
            let ghost before = entries.deep_view();
            push_deep(&mut entries, entry);
            if k >= hi {
                assert(before + seq![entry@] =~= entries.deep_view());
                return Ok(entries);
            }
            proof {
                match entries_in(ts, k + 1, hi as int) {
                    Ok(rest) => {
                        assert(before + (seq![entry@] + rest) =~= entries.deep_view() + rest);
                    },
                    Err(_) => {},
                }
            }
            p = k + 1;
        }
        Ok(entries)
    }
}

impl TransitionDef {
    /// Parses a transition at `pos`, looking no further than `hi`, in
    /// either form: reads its shape, then checks the Rust fragments of the
    /// initial state and of each entry. Returns it and the position after
    /// it.
    pub fn parse(tokens: &Vec<Token>, pos: usize, hi: usize) -> (r: Result<
        (TransitionDef, usize),
        CompileError,
    >)
        ensures
            reading(r) == def_parsed(tokens.deep_view(), pos as int, hi as int),
            r matches Ok((_, next)) ==> pos < next <= hi,
    {
        match TransitionDef::read(tokens, pos, hi) {
            Err(e) => Err(e),
            Ok((def, next)) => match def.check() {
                Err(e) => Err(e),
                Ok(()) => Ok((def, next)),
            },
        }
    }

    /// Reads a transition at `pos`, looking no further than `hi`, in either
    /// form: `Initial => Input => Target [Output]`, or `Initial => { .. }`
    /// with entries in the braces. Returns it and the position after it.
    pub fn read(tokens: &Vec<Token>, pos: usize, hi: usize) -> (r: Result<
        (TransitionDef, usize),
        CompileError,
    >)
        ensures
            reading(r) == def_at(tokens.deep_view(), pos as int, hi as int),
            r matches Ok((_, next)) ==> pos < next <= hi,
    {
        reveal(def_at);
        let (initial_state, at1) = match Variant::read(tokens, pos, hi) {
            Ok(found) => found,
            Err(e) => { return Err(e); },
        };
        if !has_arrow(tokens, at1, hi) {
            return Err(CompileError { kind: ErrorKind::MissingArrow, position: at1 });
        }
        if has_open(tokens, at1 + 2, hi, Delimiter::Brace) {
            match find_close(tokens, at1 + 2, hi) {
                None => Err(CompileError { kind: ErrorKind::Unterminated, position: at1 + 2 }),
                Some(c) => match TransitionEntry::read_list(tokens, at1 + 3, c) {
                    Err(e) => Err(e),
                    Ok(transitions) => if transitions.len() == 0 {
                        Err(CompileError { kind: ErrorKind::EmptyBlock, position: pos })
                    } else {
                        Ok((TransitionDef { initial_state, transitions }, c + 1))
                    },
                },
            }
        } else {
            match TransitionEntry::read(tokens, at1 + 2, hi) {
                Err(e) => Err(e),
                Ok((entry, next)) => {
                    let mut transitions: Vec<TransitionEntry> = Vec::new();
                    push_deep(&mut transitions, entry);
                    assert(transitions.deep_view() =~= seq![entry@]);
                    Ok((TransitionDef { initial_state, transitions }, next))
                },
            }
        }
    }

    /// Checks the Rust fragments of the transition: the initial state, then
    /// each entry in turn.
    pub fn check(&self) -> (r: Result<(), CompileError>)
        ensures
            r == verdict(def_fault(self@)),
    {
        match self.initial_state.check() {
            Err(e) => { return Err(e); },
            Ok(()) => {},
        }
        let ghost entries = self.transitions.deep_view();
        let mut i: usize = 0;
        while i < self.transitions.len()
            invariant
                i <= self.transitions.len(),
                entries == self.transitions.deep_view(),
                variant_fault(self.initial_state@) is None,
                entries_fault(entries, 0) == entries_fault(entries, i as int),
            decreases self.transitions.len() - i,
        {
            match self.transitions[i].check() {
                Err(e) => { return Err(e); },
                Ok(()) => {},
            }
            i += 1;
        }
        Ok(())
    }

    /// Reads the transition that fills `lo..hi`.
    pub fn read_all(tokens: &Vec<Token>, lo: usize, hi: usize) -> (r: Result<
        TransitionDef,
        CompileError,
    >)
        ensures
            outcome(r) == def_in(tokens.deep_view(), lo as int, hi as int),
    {
        match TransitionDef::read(tokens, lo, hi) {
            Err(e) => Err(e),
            Ok((def, next)) => if next == hi {
                Ok(def)
            } else {
                Err(CompileError { kind: ErrorKind::UnexpectedToken, position: next })
            },
        }
    }

    /// Reads the transitions that fill `lo..hi`, separated by commas.
    pub fn read_list(tokens: &Vec<Token>, lo: usize, hi: usize) -> (r: Result<
        Vec<TransitionDef>,
        CompileError,
    >)
        ensures
            outcome(r) == defs_in(tokens.deep_view(), lo as int, hi as int),
    {
        let ghost ts = tokens.deep_view();
        let mut defs: Vec<TransitionDef> = Vec::new();
        let mut p: usize = lo;
        while p < hi
            invariant
                ts == tokens.deep_view(),
                lo <= p,
                defs_in(ts, lo as int, hi as int) == match defs_in(ts, p as int, hi as int) {
                    Err(e) => Err::<Seq<DefView>, CompileError>(e),
                    Ok(rest) => Ok(defs.deep_view() + rest),
                },
            decreases hi - p,
        {
            let k = match find_top(tokens, p, hi, Mark::Comma) {
                Some(k) => k,
                None => hi,
            };
            let def = match TransitionDef::read_all(tokens, p, k) {
                Ok(def) => def,
                Err(e) => { return Err(e); },
            };
            let ghost before = defs.deep_view();
            push_deep(&mut defs, def);
            if k >= hi {
                assert(before + seq![def@] =~= defs.deep_view());
                return Ok(defs);
            }
            proof {
                match defs_in(ts, k + 1, hi as int) {
                    Ok(rest) => {
                        assert(before + (seq![def@] + rest) =~= defs.deep_view() + rest);
                    },
                    Err(_) => {},
                }
            }
            p = k + 1;
        }
        Ok(defs)
    }
}

impl ImplementationRequired {
    /// An independent copy.
    pub fn duplicate(&self) -> (copy: ImplementationRequired)
        ensures
            copy@ == self@,
    {
        match self {
            ImplementationRequired::Yes(ident, generics) => ImplementationRequired::Yes(
                ident.clone(),
                copy_tokens(generics),
            ),
            ImplementationRequired::No(path) => ImplementationRequired::No(copy_tokens(path)),
        }
    }

    /// Checks the name: the identifier and its generic parameters, or the
    /// path. A fault is reported at `span`.
    pub fn check(&self, span: usize) -> (r: Result<(), CompileError>)
        ensures
            r == verdict(name_fault(self@, span)),
    {
        match self {
            ImplementationRequired::Yes(ident, generics) => judge(
                span,
                valid_identifier(ident),
                generics.len() == 0 || valid_generics(generics),
                ErrorKind::MalformedHeader,
            ),
            ImplementationRequired::No(path) => judge(
                span,
                true,
                valid_path(path),
                ErrorKind::MalformedHeader,
            ),
        }
    }
}

impl StateMachineDef {
    /// Parses a whole description: reads its shape, then checks every Rust
    /// fragment in it. What is wrong with the shape is reported first.
    pub fn parse(tokens: &Vec<Token>) -> (r: Result<StateMachineDef, CompileError>)
        ensures
            outcome(r) == machine_parsed(tokens.deep_view()),
    {
        match StateMachineDef::read(tokens) {
            Err(e) => Err(e),
            Ok(def) => match def.check() {
                Err(e) => Err(e),
                Ok(()) => Ok(def),
            },
        }
    }

    /// Reads the shape of a whole description: attributes, visibility,
    /// header, and transitions separated by commas. What the Rust fragments
    /// hold is for [`StateMachineDef::check`].
    pub fn read(tokens: &Vec<Token>) -> (r: Result<StateMachineDef, CompileError>)
        ensures
            outcome(r) == machine_of(tokens.deep_view()),
    {
        let hi = tokens.len();
        let (doc, attributes, at1) = match read_attributes(tokens, 0, hi) {
            Ok(found) => found,
            Err(e) => { return Err(e); },
        };
        let at2 = read_visibility(tokens, at1, hi);
        let visibility = copy_range(tokens, at1, at2);
        let (header, at3) = match Header::read(tokens, at2, hi) {
            Ok(found) => found,
            Err(e) => { return Err(e); },
        };
        let transitions = match TransitionDef::read_list(tokens, at3, hi) {
            Ok(found) => found,
            Err(e) => { return Err(e); },
        };
        Ok(
            StateMachineDef {
                doc,
                visibility,
                state_name: header.state_name,
                input_name: header.input_name,
                output_name: header.output_name,
                module: header.module,
                initial_state: header.initial_state,
                span: at2,
                transitions,
                attributes,
            },
        )
    }

    /// Checks every Rust fragment of the description: the header first,
    /// then each transition in turn. Reports the first fault.
    pub fn check(&self) -> (r: Result<(), CompileError>)
        ensures
            r == verdict(machine_fault(self@)),
    {
        if !valid_attributes(&self.doc) || !valid_attributes(&self.attributes) {
            return Err(CompileError { kind: ErrorKind::MalformedHeader, position: 0 });
        }
        if !valid_visibility(&self.visibility) {
            return Err(CompileError { kind: ErrorKind::MalformedHeader, position: self.span });
        }
        match check_names(
            &self.state_name,
            &self.input_name,
            &self.output_name,
            &self.module,
            &self.initial_state,
            self.span,
        ) {
            Err(e) => { return Err(e); },
            Ok(()) => {},
        }
        let ghost defs = self.transitions.deep_view();
        let mut i: usize = 0;
        while i < self.transitions.len()
            invariant
                i <= self.transitions.len(),
                defs == self.transitions.deep_view(),
                header_fault(self@) is None,
                defs_fault(defs, 0) == defs_fault(defs, i as int),
            decreases self.transitions.len() - i,
        {
            match self.transitions[i].check() {
                Err(e) => { return Err(e); },
                Ok(()) => {},
            }
            i += 1;
        }
        Ok(())
    }
}

/// The token at the span of `v` is the identifier of `v`.
pub open spec fn stands_at(ts: Seq<Tok>, v: VariantView) -> bool {
    v.span < ts.len() && ts[v.span as int] == Tok::Ident(v.ident)
}

/// Unless the target is "stay", the token at its span is its identifier.
pub open spec fn target_stands_at(ts: Seq<Tok>, target: Option<VariantView>) -> bool {
    match target {
        Some(v) => stands_at(ts, v),
        None => true,
    }
}

/// Input, target and output of the entry stand where their spans say.
pub open spec fn entry_stands_at(ts: Seq<Tok>, entry: EntryView) -> bool {
    &&& stands_at(ts, entry.input_value)
    &&& target_stands_at(ts, entry.final_state)
    &&& match entry.output {
        Some(output) => target_stands_at(ts, output),
        None => true,
    }
}

/// The transition has at least one entry, and its initial state and every
/// entry stand where their spans say.
pub open spec fn def_stands_at(ts: Seq<Tok>, def: DefView) -> bool {
    &&& def.transitions.len() > 0
    &&& stands_at(ts, def.initial_state)
    &&& forall|b: int|
        0 <= b < def.transitions.len() ==> entry_stands_at(ts, #[trigger] def.transitions[b])
}

/// The diagnostic points at a position in `lo..=hi`.
pub open spec fn points_into(e: CompileError, lo: int, hi: int) -> bool {
    lo <= e.position <= hi
}

/// What [`named_at`](crate::variant::named_at) reads lies in `pos..hi` and
/// stands where its span says; what it reports points into `pos..=hi`.
proof fn lemma_named_at(ts: Seq<Tok>, pos: int, hi: int, target: bool)
    requires
        0 <= pos <= hi <= ts.len() <= usize::MAX,
    ensures
        match crate::variant::named_at(ts, pos, hi, target) {
            Ok((v, next)) => pos < next <= hi && stands_at(ts, v),
            Err(e) => points_into(e, pos, hi),
        },
{
    if ident_at(ts, pos, hi) && open_at(ts, pos + 1, hi, Delimiter::Parenthesis) {
        lemma_close_from_bounds(ts, pos + 2, hi, 0);
    }
}

/// What [`final_at`] reads lies in `pos..hi` and stands where its span
/// says; what it reports points into `pos..=hi`.
proof fn lemma_final_at(ts: Seq<Tok>, pos: int, hi: int)
    requires
        0 <= pos <= hi <= ts.len() <= usize::MAX,
    ensures
        match final_at(ts, pos, hi) {
            Ok((target, next)) => pos < next <= hi && target_stands_at(ts, target),
            Err(e) => points_into(e, pos, hi),
        },
{
    lemma_named_at(ts, pos, hi, true);
}

/// What [`output_at`] reads ends in `pos..=hi` and stands where its span
/// says; what it reports points into `pos..=hi`.
proof fn lemma_output_at(ts: Seq<Tok>, pos: int, hi: int)
    requires
        0 <= pos <= hi <= ts.len() <= usize::MAX,
    ensures
        match output_at(ts, pos, hi) {
            Ok((output, next)) => pos <= next <= hi && match output {
                Some(target) => target_stands_at(ts, target),
                None => true,
            },
            Err(e) => points_into(e, pos, hi),
        },
{
    if open_at(ts, pos, hi, Delimiter::Bracket) {
        lemma_close_from_bounds(ts, pos + 1, hi, 0);
        match group_end(ts, pos, hi) {
            Some(c) => {
                lemma_final_at(ts, pos + 1, c);
            },
            None => {},
        }
    }
}

/// What [`entry_at`] reads lies in `pos..hi` and stands where its spans
/// say; what it reports points into `pos..=hi`.
proof fn lemma_entry_at(ts: Seq<Tok>, pos: int, hi: int)
    requires
        0 <= pos <= hi <= ts.len() <= usize::MAX,
    ensures
        match entry_at(ts, pos, hi) {
            Ok((entry, next)) => pos < next <= hi && entry_stands_at(ts, entry),
            Err(e) => points_into(e, pos, hi),
        },
{
    reveal(entry_at);
    lemma_named_at(ts, pos, hi, false);
    match variant_at(ts, pos, hi) {
        Ok((_, at1)) => {
            if arrow_at(ts, at1, hi) {
                lemma_final_at(ts, at1 + 2, hi);
                match final_at(ts, at1 + 2, hi) {
                    Ok((_, at2)) => {
                        lemma_output_at(ts, at2, hi);
                    },
                    Err(_) => {},
                }
            }
        },
        Err(_) => {},
    }
}

/// The entries that [`entries_in`] reads stand where their spans say; what
/// it reports points into `lo..=hi`.
proof fn lemma_entries_in(ts: Seq<Tok>, lo: int, hi: int)
    requires
        0 <= lo,
        hi <= ts.len() <= usize::MAX,
    ensures
        match entries_in(ts, lo, hi) {
            Ok(entries) => forall|b: int|
                0 <= b < entries.len() ==> entry_stands_at(ts, #[trigger] entries[b]),
            Err(e) => points_into(e, lo, hi),
        },
    decreases hi - lo,
{
    if lo < hi {
        let k = chunk_end(ts, lo, hi);
        lemma_mark_from_bounds(ts, lo, hi, 0, Mark::Comma);
        lemma_entry_at(ts, lo, k);
        match entry_in(ts, lo, k) {
            Ok(entry) => {
                if k < hi {
                    lemma_entries_in(ts, k + 1, hi);
                    match entries_in(ts, k + 1, hi) {
                        Ok(rest) => {
                            let entries = seq![entry] + rest;
                        },
                        Err(_) => {},
                    }
                }
            },
            Err(_) => {},
        }
    }
}

/// What [`def_at`] reads lies in `pos..hi` and stands where its spans say;
/// what it reports points into `pos..=hi`.
proof fn lemma_def_at(ts: Seq<Tok>, pos: int, hi: int)
    requires
        0 <= pos <= hi <= ts.len() <= usize::MAX,
    ensures
        match def_at(ts, pos, hi) {
            Ok((def, next)) => pos < next <= hi && def_stands_at(ts, def),
            Err(e) => points_into(e, pos, hi),
        },
{
    reveal(def_at);
    lemma_named_at(ts, pos, hi, false);
    match variant_at(ts, pos, hi) {
        Ok((_, at1)) => {
            if arrow_at(ts, at1, hi) {
                if open_at(ts, at1 + 2, hi, Delimiter::Brace) {
                    lemma_close_from_bounds(ts, at1 + 3, hi, 0);
                    match group_end(ts, at1 + 2, hi) {
                        Some(c) => {
                            lemma_entries_in(ts, at1 + 3, c);
                        },
                        None => {},
                    }
                } else {
                    lemma_entry_at(ts, at1 + 2, hi);
                }
            }
        },
        Err(_) => {},
    }
}

/// The transitions that [`defs_in`] reads stand where their spans say;
/// what it reports points into `lo..=hi`.
proof fn lemma_defs_in(ts: Seq<Tok>, lo: int, hi: int)
    requires
        0 <= lo,
        hi <= ts.len() <= usize::MAX,
    ensures
        match defs_in(ts, lo, hi) {
            Ok(defs) => forall|a: int|
                0 <= a < defs.len() ==> def_stands_at(ts, #[trigger] defs[a]),
            Err(e) => points_into(e, lo, hi),
        },
    decreases hi - lo,
{
    if lo < hi {
        let k = chunk_end(ts, lo, hi);
        lemma_mark_from_bounds(ts, lo, hi, 0, Mark::Comma);
        lemma_def_at(ts, lo, k);
        match def_in(ts, lo, k) {
            Ok(def) => {
                if k < hi {
                    lemma_defs_in(ts, k + 1, hi);
                    match defs_in(ts, k + 1, hi) {
                        Ok(rest) => {
                            let defs = seq![def] + rest;
                        },
                        Err(_) => {},
                    }
                }
            },
            Err(_) => {},
        }
    }
}

/// The attributes that [`attributes_at`] reads end in `pos..=hi`; what it
/// reports points into `pos..=hi`.
proof fn lemma_attributes_at(ts: Seq<Tok>, pos: int, hi: int)
    requires
        0 <= pos <= hi <= ts.len() <= usize::MAX,
    ensures
        match attributes_at(ts, pos, hi) {
            Ok((doc, attributes, next)) => pos <= next <= hi && doc.len() + attributes.len()
                == next - pos,
            Err(e) => points_into(e, pos, hi),
        },
    decreases hi - pos,
{
    if punct_at(ts, pos, hi, '#') && open_at(ts, pos + 1, hi, Delimiter::Bracket) {
        lemma_close_from_bounds(ts, pos + 2, hi, 0);
        match group_end(ts, pos + 1, hi) {
            Some(c) => {
                lemma_attributes_at(ts, c + 1, hi);
            },
            None => {},
        }
    }
}

/// A visibility qualifier ends in `pos..=hi`.
proof fn lemma_visibility_end(ts: Seq<Tok>, pos: int, hi: int)
    requires
        0 <= pos <= hi <= ts.len(),
    ensures
        pos <= visibility_end(ts, pos, hi) <= hi,
{
    lemma_close_from_bounds(ts, pos + 2, hi, 0);
}

/// A path ends in `pos..=hi`, and after `pos` if it starts with an
/// identifier.
proof fn lemma_path_end(ts: Seq<Tok>, pos: int, hi: int)
    requires
        0 <= pos <= hi <= ts.len(),
    ensures
        pos <= path_end(ts, pos, hi) <= hi,
        ident_at(ts, pos, hi) ==> pos < path_end(ts, pos, hi),
    decreases hi - pos,
{
    if ident_at(ts, pos, hi) {
        lemma_angle_from_bounds(ts, pos + 2, hi, 0, 1);
        let after = segment_end(ts, pos, hi);
        if colons_at(ts, after, hi) && ident_at(ts, after + 2, hi) {
            lemma_path_end(ts, after + 2, hi);
        }
    }
}

/// What [`name_at`] reads lies in `pos..hi`; what it reports points into
/// `pos..=hi`.
proof fn lemma_name_at(ts: Seq<Tok>, pos: int, hi: int)
    requires
        0 <= pos <= hi <= ts.len() <= usize::MAX,
    ensures
        match name_at(ts, pos, hi) {
            Ok((_, next)) => pos < next <= hi,
            Err(e) => points_into(e, pos, hi),
        },
{
    if colons_at(ts, pos, hi) {
        if ident_at(ts, pos + 2, hi) {
            lemma_path_end(ts, pos + 2, hi);
        }
    } else if ident_at(ts, pos, hi) {
        lemma_angle_from_bounds(ts, pos + 2, hi, 0, 1);
    }
}

/// What [`header_at`] reads lies in `pos..hi`; what it reports points into
/// `pos..=hi`.
proof fn lemma_header_at(ts: Seq<Tok>, pos: int, hi: int)
    requires
        0 <= pos <= hi <= ts.len() <= usize::MAX,
    ensures
        match header_at(ts, pos, hi) {
            Ok((_, next)) => pos < next <= hi,
            Err(e) => points_into(e, pos, hi),
        },
{
    if ident_at(ts, pos, hi) && open_at(ts, pos + 1, hi, Delimiter::Parenthesis) {
        lemma_close_from_bounds(ts, pos + 2, hi, 0);
    } else {
        lemma_name_at(ts, pos, hi);
        match name_at(ts, pos, hi) {
            Ok((_, at1)) => {
                if arrow_at(ts, at1, hi) {
                    lemma_name_at(ts, at1 + 2, hi);
                    match name_at(ts, at1 + 2, hi) {
                        Ok((_, at2)) => {
                            if arrow_at(ts, at2, hi) {
                                lemma_name_at(ts, at2 + 2, hi);
                            }
                        },
                        Err(_) => {},
                    }
                }
            },
            Err(_) => {},
        }
    }
}

/// Reading the attributes loses nothing: the documentation attributes and
/// the other attributes, which are kept apart, each kind in the order of
/// the source, are together as long as the run of attributes that was read.
pub proof fn lemma_attributes_are_kept(ts: Seq<Tok>, pos: int, hi: int)
    requires
        0 <= pos <= hi <= ts.len() <= usize::MAX,
    ensures
        attributes_at(ts, pos, hi) matches Ok((doc, attributes, next)) ==> doc.len()
            + attributes.len() == next - pos,
{
    lemma_attributes_at(ts, pos, hi);
}

/// Whatever is wrong with the shape of a description is reported at the
/// index of a token of the input, or at the length of the input where the
/// input ends too early.
pub proof fn lemma_diagnostics_point_into_input(ts: Seq<Tok>)
    requires
        ts.len() <= usize::MAX,
    ensures
        machine_of(ts) matches Err(e) ==> e.position <= ts.len(),
{
    lemma_spans_name_identifiers(ts);
}

/// In a description that has been read, every transition has at least one
/// entry, every state, input and output that a transition names stands in
/// the input at the index that its span gives, and the header starts inside
/// the input.
pub proof fn lemma_spans_name_identifiers(ts: Seq<Tok>)
    requires
        ts.len() <= usize::MAX,
    ensures
        match machine_of(ts) {
            Ok(def) => def.span <= ts.len() && forall|a: int|
                0 <= a < def.transitions.len() ==> def_stands_at(ts, #[trigger] def.transitions[a]),
            Err(e) => points_into(e, 0, ts.len() as int),
        },
{
    let hi = ts.len() as int;
    lemma_attributes_at(ts, 0, hi);
    match attributes_at(ts, 0, hi) {
        Ok((_, _, at1)) => {
            lemma_visibility_end(ts, at1, hi);
            let at2 = visibility_end(ts, at1, hi);
            lemma_header_at(ts, at2, hi);
            match header_at(ts, at2, hi) {
                Ok((_, at3)) => {
                    lemma_defs_in(ts, at3, hi);
                },
                Err(_) => {},
            }
        },
        Err(_) => {},
    }
}

} // verus!
