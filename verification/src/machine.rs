//! The analysed model: three alphabets and the ordered table of transitions,
//! and the function that runs it.

use crate::error::{error_at, outcome, CompileError, ErrorKind};
use crate::parser::{
    DefView, EntryView, ImplementationRequired, MachineDefView, NameView, StateMachineDef,
    TransitionDef, TransitionEntry,
};
use crate::token::{
    copy_optional, copy_tokens, push_deep, push_token, push_tokens, Delimiter, Tok, Token,
};
use crate::variant::{
    alphabet, alphabet_of, distinct, guard_of, is_member, lemma_alphabet_is_distinct,
    lemma_members_occur, lemma_one_member_each, wildcard, Final, Member, MemberView, Variant,
    VariantView,
};
use vstd::prelude::*;

verus! {

/// One row of the transition table: in state `initial`, on `input`, go to
/// `target` and emit `output`. The target is resolved: no row says "stay".
#[derive(Clone, Debug)]
pub struct Row {
    pub initial: Variant,
    pub input: Variant,
    pub target: Variant,
    pub output: Option<Variant>,
}

/// Mathematical model of a [`Row`].
pub struct RowView {
    pub initial: VariantView,
    pub input: VariantView,
    pub target: VariantView,
    pub output: Option<VariantView>,
}

impl DeepView for Row {
    type V = RowView;

    open spec fn deep_view(&self) -> RowView {
        RowView {
            initial: self.initial@,
            input: self.input@,
            target: self.target@,
            output: self.output.deep_view(),
        }
    }
}

impl View for Row {
    type V = RowView;

    open spec fn view(&self) -> RowView {
        self.deep_view()
    }
}

/// The state that a target means when the transition starts in `initial`.
/// "Stay" means the initial state itself: the same identifier, built from
/// what the pattern of the initial state has bound.
pub open spec fn resolve(target: Option<VariantView>, initial: VariantView) -> VariantView {
    match target {
        Some(v) => v,
        None => VariantView {
            ident: initial.ident,
            span: initial.span,
            field: match initial.field {
                None => None,
                Some((ty, pattern, _)) => Some((ty, wildcard(), Some(pattern))),
            },
        },
    }
}

/// The row that an entry contributes to the table. An output cannot be
/// "stay".
pub open spec fn row_of(initial: VariantView, entry: EntryView) -> Result<RowView, CompileError> {
    match entry.output {
        Some(None) => Err(error_at(ErrorKind::StayOutput, entry.input_value.span as int)),
        Some(Some(output)) => Ok(
            RowView {
                initial,
                input: entry.input_value,
                target: resolve(entry.final_state, initial),
                output: Some(output),
            },
        ),
        None => Ok(
            RowView {
                initial,
                input: entry.input_value,
                target: resolve(entry.final_state, initial),
                output: None,
            },
        ),
    }
}

/// The rows of the entries of `def` from index `from` on, in their order.
pub open spec fn def_rows(def: DefView, from: int) -> Result<Seq<RowView>, CompileError>
    decreases def.transitions.len() - from,
{
    if from < 0 || from >= def.transitions.len() {
        Ok(Seq::empty())
    } else {
        match row_of(def.initial_state, def.transitions[from]) {
            Err(e) => Err(e),
            Ok(row) => match def_rows(def, from + 1) {
                Err(e) => Err(e),
                Ok(rest) => Ok(seq![row] + rest),
            },
        }
    }
}

/// The rows of the transitions from index `from` on, in the order in which
/// they are declared. A transition without entries is an error.
pub open spec fn rows_from(defs: Seq<DefView>, from: int) -> Result<Seq<RowView>, CompileError>
    decreases defs.len() - from,
{
    if from < 0 || from >= defs.len() {
        Ok(Seq::empty())
    } else if defs[from].transitions.len() == 0 {
        Err(error_at(ErrorKind::EmptyBlock, defs[from].initial_state.span as int))
    } else {
        match def_rows(defs[from], 0) {
            Err(e) => Err(e),
            Ok(rows) => match rows_from(defs, from + 1) {
                Err(e) => Err(e),
                Ok(rest) => Ok(rows + rest),
            },
        }
    }
}

/// The transition table of a list of transitions.
pub open spec fn rows_of(defs: Seq<DefView>) -> Result<Seq<RowView>, CompileError> {
    rows_from(defs, 0)
}

/// The condition that holds when both `a` and `b` hold: `(a) && (b)`.
pub open spec fn both(a: Seq<Tok>, b: Seq<Tok>) -> Seq<Tok> {
    seq![Tok::Open(Delimiter::Parenthesis)] + a + seq![
        Tok::Close(Delimiter::Parenthesis),
        Tok::Punct('&', true),
        Tok::Punct('&', false),
        Tok::Open(Delimiter::Parenthesis),
    ] + b + seq![Tok::Close(Delimiter::Parenthesis)]
}

/// The guard that two optional guards make together: the conjunction of
/// both where both are given, the one that is given where only one is, and
/// none where none is.
pub open spec fn compose(a: Option<Seq<Tok>>, b: Option<Seq<Tok>>) -> Option<Seq<Tok>> {
    match (a, b) {
        (Some(x), Some(y)) => Some(both(x, y)),
        (Some(x), None) => Some(x),
        (None, Some(y)) => Some(y),
        (None, None) => None,
    }
}

/// The effective guard of a row: the guard of its initial state and the
/// guard of its input, composed.
pub open spec fn row_guard(row: RowView) -> Option<Seq<Tok>> {
    compose(guard_of(row.initial), guard_of(row.input))
}

/// A guard on one side alone is the guard of the row: where the initial
/// state has no guard, the row has the guard of its input, and where the
/// input has none, that of its initial state. Only where both have one is
/// the guard of the row their conjunction.
pub proof fn lemma_row_guard(row: RowView)
    ensures
        guard_of(row.initial) is None ==> row_guard(row) == guard_of(row.input),
        guard_of(row.input) is None ==> row_guard(row) == guard_of(row.initial),
        guard_of(row.initial) is Some && guard_of(row.input) is Some ==> row_guard(row) == Some(
            both(guard_of(row.initial)->Some_0, guard_of(row.input)->Some_0),
        ),
{
}

/// The occurrences of states in the table: of each row the initial state,
/// then the target.
pub open spec fn state_occurrences(rows: Seq<RowView>) -> Seq<VariantView>
    decreases rows.len(),
{
    if rows.len() == 0 {
        Seq::empty()
    } else {
        state_occurrences(rows.drop_last()).push(rows.last().initial).push(rows.last().target)
    }
}

/// The occurrences of inputs in the table: the input of each row.
pub open spec fn input_occurrences(rows: Seq<RowView>) -> Seq<VariantView>
    decreases rows.len(),
{
    if rows.len() == 0 {
        Seq::empty()
    } else {
        input_occurrences(rows.drop_last()).push(rows.last().input)
    }
}

/// The occurrences of outputs in the table: the output of each row that
/// has one.
pub open spec fn output_occurrences(rows: Seq<RowView>) -> Seq<VariantView>
    decreases rows.len(),
{
    if rows.len() == 0 {
        Seq::empty()
    } else {
        match rows.last().output {
            Some(output) => output_occurrences(rows.drop_last()).push(output),
            None => output_occurrences(rows.drop_last()),
        }
    }
}

/// Composes two optional guards: `(a) && (b)` where both are given.
pub fn compose_guards(a: &Option<Vec<Token>>, b: &Option<Vec<Token>>) -> (guard: Option<
    Vec<Token>,
>)
    ensures
        guard.deep_view() == compose(a.deep_view(), b.deep_view()),
{
    match (a, b) {
        (Some(x), Some(y)) => {
            let mut out: Vec<Token> = Vec::new();
            push_token(&mut out, Token::Open(Delimiter::Parenthesis));
            push_tokens(&mut out, x);
            push_token(&mut out, Token::Close(Delimiter::Parenthesis));
            push_token(&mut out, Token::Punct('&', true));
            push_token(&mut out, Token::Punct('&', false));
            push_token(&mut out, Token::Open(Delimiter::Parenthesis));
            push_tokens(&mut out, y);
            push_token(&mut out, Token::Close(Delimiter::Parenthesis));
            Some(out)
        },
        (Some(x), None) => Some(copy_tokens(x)),
        (None, Some(y)) => Some(copy_tokens(y)),
        (None, None) => None,
    }
}

/// Resolves a target against the initial state of its transition.
pub fn resolve_target(target: &Final, initial: &Variant) -> (state: Variant)
    ensures
        state@ == resolve(target@, initial@),
{
    match &target.0 {
        Some(v) => v.duplicate(),
        None => {
            let field = match &initial.field {
                None => None,
                Some((ty, pattern, _)) => {
                    let mut wild: Vec<Token> = Vec::new();
                    push_token(&mut wild, Token::word("_"));
                    assert(wild.deep_view() =~= wildcard());
                    Some((copy_optional(ty), wild, Some(copy_tokens(pattern))))
                },
            };
            Variant { ident: initial.ident.clone(), span: initial.span, field }
        },
    }
}

impl Row {
    /// Builds the row that `entry` contributes when it leaves `initial`.
    pub fn new(initial: &Variant, entry: &TransitionEntry) -> (r: Result<Row, CompileError>)
        ensures
            outcome(r) == row_of(initial@, entry@),
    {
        let output = match &entry.output {
            None => None,
            Some(f) => match &f.0 {
                None => {
                    return Err(
                        CompileError {
                            kind: ErrorKind::StayOutput,
                            position: entry.input_value.span,
                        },
                    );
                },
                Some(v) => Some(v.duplicate()),
            },
        };
        Ok(
            Row {
                initial: initial.duplicate(),
                input: entry.input_value.duplicate(),
                target: resolve_target(&entry.final_state, initial),
                output,
            },
        )
    }

    /// The effective guard of the row.
    pub fn guard(&self) -> (guard: Option<Vec<Token>>)
        ensures
            guard.deep_view() == row_guard(self@),
    {
        let a = match &self.initial.field {
            Some((_, _, g)) => copy_optional(g),
            None => None,
        };
        let b = match &self.input.field {
            Some((_, _, g)) => copy_optional(g),
            None => None,
        };
        compose_guards(&a, &b)
    }

    /// Whether the row has a guard.
    pub fn is_guarded(&self) -> (guarded: bool)
        ensures
            guarded == row_guard(self@) is Some,
    {
        let a = match &self.initial.field {
            Some((_, _, g)) => g.is_some(),
            None => false,
        };
        let b = match &self.input.field {
            Some((_, _, g)) => g.is_some(),
            None => false,
        };
        a || b
    }
}

/// Builds the rows of one transition: one row for each of its entries, in
/// their order.
pub fn build_def_rows(def: &TransitionDef) -> (r: Result<Vec<Row>, CompileError>)
    ensures
        outcome(r) == def_rows(def@, 0),
{
    let ghost entries = def.transitions.deep_view();
    let mut rows: Vec<Row> = Vec::new();
    let mut b: usize = 0;
    while b < def.transitions.len()
        invariant
            b <= def.transitions.len(),
            entries == def@.transitions,
            def_rows(def@, 0) == match def_rows(def@, b as int) {
                Err(e) => Err::<Seq<RowView>, CompileError>(e),
                Ok(rest) => Ok(rows.deep_view() + rest),
            },
        decreases def.transitions.len() - b,
    {
        let row = match Row::new(&def.initial_state, &def.transitions[b]) {
            Ok(row) => row,
            Err(e) => { return Err(e); },
        };
        let ghost before = rows.deep_view();
        push_deep(&mut rows, row);
        proof {
            match def_rows(def@, b + 1) {
                Ok(rest) => {
                    assert(before + (seq![row@] + rest) =~= rows.deep_view() + rest);
                },
                Err(_) => {},
            }
        }
        b += 1;
    }
    Ok(rows)
}

/// Builds the transition table of a list of transitions: one row for each
/// entry, in the order of declaration.
pub fn build_rows(defs: &Vec<TransitionDef>) -> (r: Result<Vec<Row>, CompileError>)
    ensures
        outcome(r) == rows_of(defs.deep_view()),
{
    let ghost all = defs.deep_view();
    let mut rows: Vec<Row> = Vec::new();
    let mut a: usize = 0;
    while a < defs.len()
        invariant
            a <= defs.len(),
            all == defs.deep_view(),
            rows_from(all, 0) == match rows_from(all, a as int) {
                Err(e) => Err::<Seq<RowView>, CompileError>(e),
                Ok(rest) => Ok(rows.deep_view() + rest),
            },
        decreases defs.len() - a,
    {
        let def = &defs[a];
        if def.transitions.len() == 0 {
            return Err(
                CompileError { kind: ErrorKind::EmptyBlock, position: def.initial_state.span },
            );
        }
        let mut part = match build_def_rows(def) {
            Ok(part) => part,
            Err(e) => { return Err(e); },
        };
        let ghost before = rows.deep_view();
        let ghost added = part.deep_view();
        rows.append(&mut part);
        proof {
            assert(rows.deep_view() =~= before + added);
            match rows_from(all, a + 1) {
                Ok(rest) => {
                    assert(before + (added + rest) =~= rows.deep_view() + rest);
                },
                Err(_) => {},
            }
        }
        a += 1;
    }
    Ok(rows)
}

/// Collects the occurrences of states in the table.
pub fn collect_states(rows: &Vec<Row>) -> (list: Vec<Variant>)
    ensures
        list.deep_view() == state_occurrences(rows.deep_view()),
{
    let ghost table = rows.deep_view();
    let mut list: Vec<Variant> = Vec::new();
    let mut i: usize = 0;
    while i < rows.len()
        invariant
            i <= rows.len(),
            table == rows.deep_view(),
            list.deep_view() == state_occurrences(table.subrange(0, i as int)),
        decreases rows.len() - i,
    {
        assert(table.subrange(0, i + 1).drop_last() =~= table.subrange(0, i as int));
        push_deep(&mut list, rows[i].initial.duplicate());
        push_deep(&mut list, rows[i].target.duplicate());
        i += 1;
    }
    assert(table.subrange(0, rows.len() as int) =~= table);
    list
}

/// Collects the occurrences of inputs in the table.
pub fn collect_inputs(rows: &Vec<Row>) -> (list: Vec<Variant>)
    ensures
        list.deep_view() == input_occurrences(rows.deep_view()),
{
    let ghost table = rows.deep_view();
    let mut list: Vec<Variant> = Vec::new();
    let mut i: usize = 0;
    while i < rows.len()
        invariant
            i <= rows.len(),
            table == rows.deep_view(),
            list.deep_view() == input_occurrences(table.subrange(0, i as int)),
        decreases rows.len() - i,
    {
        assert(table.subrange(0, i + 1).drop_last() =~= table.subrange(0, i as int));
        push_deep(&mut list, rows[i].input.duplicate());
        i += 1;
    }
    assert(table.subrange(0, rows.len() as int) =~= table);
    list
}

/// Collects the occurrences of outputs in the table.
pub fn collect_outputs(rows: &Vec<Row>) -> (list: Vec<Variant>)
    ensures
        list.deep_view() == output_occurrences(rows.deep_view()),
{
    let ghost table = rows.deep_view();
    let mut list: Vec<Variant> = Vec::new();
    let mut i: usize = 0;
    while i < rows.len()
        invariant
            i <= rows.len(),
            table == rows.deep_view(),
            list.deep_view() == output_occurrences(table.subrange(0, i as int)),
        decreases rows.len() - i,
    {
        assert(table.subrange(0, i + 1).drop_last() =~= table.subrange(0, i as int));
        match &rows[i].output {
            Some(output) => {
                push_deep(&mut list, output.duplicate());
            },
            None => {},
        }
        i += 1;
    }
    assert(table.subrange(0, rows.len() as int) =~= table);
    list
}

/// A state machine after analysis: what the header said, the three
/// alphabets, and the transition table in the order of declaration.
#[derive(Clone, Debug)]
pub struct Machine {
    pub doc: Vec<Token>,
    pub attributes: Vec<Token>,
    pub visibility: Vec<Token>,
    pub state_name: ImplementationRequired,
    pub input_name: ImplementationRequired,
    pub output_name: ImplementationRequired,
    pub module: Option<String>,
    pub initial_state: Option<String>,
    pub states: Vec<Member>,
    pub inputs: Vec<Member>,
    pub outputs: Vec<Member>,
    pub rows: Vec<Row>,
}

/// Mathematical model of a [`Machine`].
pub struct MachineView {
    pub doc: Seq<Tok>,
    pub attributes: Seq<Tok>,
    pub visibility: Seq<Tok>,
    pub state_name: NameView,
    pub input_name: NameView,
    pub output_name: NameView,
    pub module: Option<Seq<char>>,
    pub initial_state: Option<Seq<char>>,
    pub states: Seq<MemberView>,
    pub inputs: Seq<MemberView>,
    pub outputs: Seq<MemberView>,
    pub rows: Seq<RowView>,
}

impl DeepView for Machine {
    type V = MachineView;

    open spec fn deep_view(&self) -> MachineView {
        MachineView {
            doc: self.doc.deep_view(),
            attributes: self.attributes.deep_view(),
            visibility: self.visibility.deep_view(),
            state_name: self.state_name@,
            input_name: self.input_name@,
            output_name: self.output_name@,
            module: self.module.deep_view(),
            initial_state: self.initial_state.deep_view(),
            states: self.states.deep_view(),
            inputs: self.inputs.deep_view(),
            outputs: self.outputs.deep_view(),
            rows: self.rows.deep_view(),
        }
    }
}

impl View for Machine {
    type V = MachineView;

    open spec fn view(&self) -> MachineView {
        self.deep_view()
    }
}

/// The machine that a description defines. A description without any
/// transition defines none. The table holds one row for each entry, in the
/// order of declaration; each alphabet holds one member for each identifier
/// that occurs in its place, in the order of first occurrence.
pub open spec fn analysis(def: MachineDefView) -> Result<MachineView, CompileError> {
    if def.transitions.len() == 0 {
        Err(error_at(ErrorKind::NoTransitions, def.span as int))
    } else {
        match rows_of(def.transitions) {
            Err(e) => Err(e),
            Ok(rows) => match alphabet_of(state_occurrences(rows)) {
                Err(e) => Err(e),
                Ok(states) => match alphabet_of(input_occurrences(rows)) {
                    Err(e) => Err(e),
                    Ok(inputs) => match alphabet_of(output_occurrences(rows)) {
                        Err(e) => Err(e),
                        Ok(outputs) => Ok(
                            MachineView {
                                doc: def.doc,
                                attributes: def.attributes,
                                visibility: def.visibility,
                                state_name: def.state_name,
                                input_name: def.input_name,
                                output_name: def.output_name,
                                module: def.module,
                                initial_state: def.initial_state,
                                states,
                                inputs,
                                outputs,
                                rows,
                            },
                        ),
                    },
                },
            },
        }
    }
}

/// The value that is handed back when no row of the table takes a pair of
/// state and input: exactly that state and that input.
#[derive(Clone, Debug, PartialEq, Eq)]
pub struct Rejected {
    pub state: String,
    pub input: String,
}

/// Row `k` takes the pair of `state` and `input`: it is declared for both,
/// and its guard, if it has one, holds. `holds` says of each row whether
/// its guard holds for the values at hand; a row it does not reach counts
/// as one whose guard does not hold.
pub open spec fn fires(
    rows: Seq<RowView>,
    k: int,
    state: Seq<char>,
    input: Seq<char>,
    holds: Seq<bool>,
) -> bool {
    &&& 0 <= k < rows.len()
    &&& rows[k].initial.ident == state
    &&& rows[k].input.ident == input
    &&& (row_guard(rows[k]) is None || (k < holds.len() && holds[k]))
}

/// The first row from index `from` on that takes the pair.
pub open spec fn first_firing(
    rows: Seq<RowView>,
    from: int,
    state: Seq<char>,
    input: Seq<char>,
    holds: Seq<bool>,
) -> Option<int>
    decreases rows.len() - from,
{
    if from < 0 || from >= rows.len() {
        None
    } else if fires(rows, from, state, input, holds) {
        Some(from)
    } else {
        first_firing(rows, from + 1, state, input, holds)
    }
}

/// The identifier of the output of a row, if the row has an output.
pub open spec fn output_ident(row: RowView) -> Option<Seq<char>> {
    match row.output {
        Some(output) => Some(output.ident),
        None => None,
    }
}

/// What the table answers to a pair of state and input: the target and
/// the output of the first row that takes the pair, or nothing if no row
/// does.
pub open spec fn step(
    rows: Seq<RowView>,
    state: Seq<char>,
    input: Seq<char>,
    holds: Seq<bool>,
) -> Option<(Seq<char>, Option<Seq<char>>)> {
    match first_firing(rows, 0, state, input, holds) {
        Some(k) => Some((rows[k].target.ident, output_ident(rows[k]))),
        None => None,
    }
}

/// What a step owes: the target and the output of the first row that takes
/// the pair, as [`step`] gives them; or, where no row takes the pair, the
/// very state and input of the call, handed back.
pub open spec fn transition_outcome(
    rows: Seq<RowView>,
    state: String,
    input: String,
    holds: Seq<bool>,
    r: Result<(String, Option<String>), Rejected>,
) -> bool {
    match r {
        Ok((next, output)) => step(rows, state@, input@, holds) == Some(
            (next@, output.deep_view()),
        ),
        Err(rejected) => step(rows, state@, input@, holds) is None && rejected.state == state
            && rejected.input == input,
    }
}

impl Machine {
    /// Analyses a description: builds the transition table and the three
    /// alphabets. Fails if the description declares no transition, if a
    /// transition has no entry, if an output is "stay", or if an identifier
    /// carries data whose type is declared nowhere.
    pub fn new(def: StateMachineDef) -> (r: Result<Machine, CompileError>)
        ensures
            outcome(r) == analysis(def@),
            r matches Ok(machine) ==> well_formed(machine@),
    {
        proof {
            if analysis(def@) is Ok {
                lemma_analysis_is_well_formed(def@, analysis(def@)->Ok_0);
            }
        }
        if def.transitions.len() == 0 {
            return Err(CompileError { kind: ErrorKind::NoTransitions, position: def.span });
        }
        let rows = match build_rows(&def.transitions) {
            Ok(rows) => rows,
            Err(e) => { return Err(e); },
        };
        let states = match alphabet(collect_states(&rows).as_slice()) {
            Ok(members) => members,
            Err(e) => { return Err(e); },
        };
        let inputs = match alphabet(collect_inputs(&rows).as_slice()) {
            Ok(members) => members,
            Err(e) => { return Err(e); },
        };
        let outputs = match alphabet(collect_outputs(&rows).as_slice()) {
            Ok(members) => members,
            Err(e) => { return Err(e); },
        };
        Ok(
            Machine {
                doc: def.doc,
                attributes: def.attributes,
                visibility: def.visibility,
                state_name: def.state_name,
                input_name: def.input_name,
                output_name: def.output_name,
                module: def.module,
                initial_state: def.initial_state,
                states,
                inputs,
                outputs,
                rows,
            },
        )
    }

    /// Runs one step of the machine. The rows declared for `state` and
    /// `input` are tried in the order of declaration, and the first whose
    /// guard holds, or which has none, gives the new state and the output.
    /// `holds` says of each row of the table whether its guard holds for
    /// the values of this call. Where no row takes the pair, the state and
    /// the input are handed back as they came.
    pub fn transition(&self, state: String, input: String, holds: &Vec<bool>) -> (r: Result<
        (String, Option<String>),
        Rejected,
    >)
        ensures
            transition_outcome(self@.rows, state, input, holds@, r),
    {
        let ghost rows = self.rows.deep_view();
        let mut k: usize = 0;
        while k < self.rows.len()
            invariant
                k <= self.rows.len(),
                rows == self.rows.deep_view(),
                first_firing(rows, 0, state@, input@, holds@) == first_firing(
                    rows,
                    k as int,
                    state@,
                    input@,
                    holds@,
                ),
            decreases self.rows.len() - k,
        {
            let row = &self.rows[k];
            if row.initial.ident == state && row.input.ident == input && (!row.is_guarded() || (k
                < holds.len() && holds[k])) {
                let output = match &row.output {
                    Some(o) => Some(o.ident.clone()),
                    None => None,
                };
                return Ok((row.target.ident.clone(), output));
            }
            k += 1;
        }
        Err(Rejected { state, input })
    }
}

/// Row `k` is declared for the pair of `state` and `input`.
pub open spec fn declared_for(
    rows: Seq<RowView>,
    k: int,
    state: Seq<char>,
    input: Seq<char>,
) -> bool {
    0 <= k < rows.len() && rows[k].initial.ident == state && rows[k].input.ident == input
}

/// The first row that takes a pair is the least one: it takes the pair,
/// and no row before it does. Where there is none, no row takes the pair.
pub proof fn lemma_first_firing(
    rows: Seq<RowView>,
    from: int,
    state: Seq<char>,
    input: Seq<char>,
    holds: Seq<bool>,
)
    requires
        0 <= from,
    ensures
        match first_firing(rows, from, state, input, holds) {
            Some(k) => from <= k && fires(rows, k, state, input, holds) && forall|j: int|
                from <= j < k ==> !fires(rows, j, state, input, holds),
            None => forall|j: int| from <= j ==> !fires(rows, j, state, input, holds),
        },
    decreases rows.len() - from,
{
    if from < rows.len() && !fires(rows, from, state, input, holds) {
        lemma_first_firing(rows, from + 1, state, input, holds);
    }
}

/// A pair of state and input for which the table declares no row is
/// rejected, whatever the guards say.
pub proof fn lemma_undeclared_pair_is_rejected(
    rows: Seq<RowView>,
    state: String,
    input: String,
    holds: Seq<bool>,
    r: Result<(String, Option<String>), Rejected>,
)
    requires
        forall|k: int| !declared_for(rows, k, state@, input@),
        transition_outcome(rows, state, input, holds, r),
    ensures
        r == Err::<(String, Option<String>), Rejected>(Rejected { state, input }),
{
    lemma_first_firing(rows, 0, state@, input@, holds);
    match first_firing(rows, 0, state@, input@, holds) {
        Some(k) => {
            assert(declared_for(rows, k, state@, input@));
        },
        None => {},
    }
}

/// A step has one result: two results that [`Machine::transition`] may give
/// for the same table, state, input and guards are the same.
pub proof fn lemma_transition_is_deterministic(
    rows: Seq<RowView>,
    state: String,
    input: String,
    holds: Seq<bool>,
    r1: Result<(String, Option<String>), Rejected>,
    r2: Result<(String, Option<String>), Rejected>,
)
    requires
        transition_outcome(rows, state, input, holds, r1),
        transition_outcome(rows, state, input, holds, r2),
    ensures
        match (r1, r2) {
            (Ok((next1, output1)), Ok((next2, output2))) => next1@ == next2@
                && output1.deep_view() == output2.deep_view(),
            (Err(rejected1), Err(rejected2)) => rejected1 == rejected2,
            _ => false,
        },
{
}

/// Where exactly two rows are declared for a pair, the first with a guard
/// that does not hold and the second without a guard, the second row gives
/// the result.
pub proof fn lemma_guard_precedence(
    rows: Seq<RowView>,
    i: int,
    j: int,
    state: String,
    input: String,
    holds: Seq<bool>,
    r: Result<(String, Option<String>), Rejected>,
)
    requires
        0 <= i < j < rows.len(),
        declared_for(rows, i, state@, input@),
        declared_for(rows, j, state@, input@),
        forall|k: int| k != i && k != j ==> !declared_for(rows, k, state@, input@),
        row_guard(rows[i]) is Some,
        !(i < holds.len() && holds[i]),
        row_guard(rows[j]) is None,
        transition_outcome(rows, state, input, holds, r),
    ensures
        r matches Ok((next, output)) && next@ == rows[j].target.ident && output.deep_view()
            == output_ident(rows[j]),
{
    lemma_first_firing(rows, 0, state@, input@, holds);
    assert(fires(rows, j, state@, input@, holds));
    match first_firing(rows, 0, state@, input@, holds) {
        Some(k) => {
            assert(declared_for(rows, k, state@, input@));
        },
        None => {},
    }
}

/// A row without a guard takes every pair it is declared for, so no row
/// declared after it for the same pair ever gives the result.
pub proof fn lemma_unguarded_row_shadows(
    rows: Seq<RowView>,
    i: int,
    state: Seq<char>,
    input: Seq<char>,
    holds: Seq<bool>,
)
    requires
        declared_for(rows, i, state, input),
        row_guard(rows[i]) is None,
    ensures
        first_firing(rows, 0, state, input, holds) matches Some(k) && k <= i,
{
    lemma_first_firing(rows, 0, state, input, holds);
    assert(fires(rows, i, state, input, holds));
}

/// The number of rows that the transitions before index `a` contribute.
pub open spec fn rows_before(defs: Seq<DefView>, a: int) -> int
    decreases a,
{
    if a <= 0 {
        0
    } else {
        rows_before(defs, a - 1) + defs[a - 1].transitions.len()
    }
}

/// The rows of one transition are those of its entries, in their order.
proof fn lemma_def_rows(def: DefView, from: int, rows: Seq<RowView>, b: int)
    requires
        0 <= from <= b < def.transitions.len(),
        def_rows(def, from) == Ok::<Seq<RowView>, CompileError>(rows),
    ensures
        rows.len() == def.transitions.len() - from,
        row_of(def.initial_state, def.transitions[b]) == Ok::<RowView, CompileError>(
            rows[b - from],
        ),
    decreases def.transitions.len() - from,
{
    let rest = def_rows(def, from + 1)->Ok_0;
    if from + 1 < def.transitions.len() {
        if from < b {
            lemma_def_rows(def, from + 1, rest, b);
        } else {
            lemma_def_rows(def, from + 1, rest, from + 1);
        }
    }
}

/// The table holds the rows of each transition at the place that the
/// order of declaration gives them.
proof fn lemma_rows_from(defs: Seq<DefView>, from: int, rows: Seq<RowView>, a: int, b: int)
    requires
        0 <= from <= a < defs.len(),
        0 <= b < defs[a].transitions.len(),
        rows_from(defs, from) == Ok::<Seq<RowView>, CompileError>(rows),
    ensures
        0 <= rows_before(defs, a) - rows_before(defs, from) + b < rows.len(),
        row_of(defs[a].initial_state, defs[a].transitions[b]) == Ok::<RowView, CompileError>(
            rows[rows_before(defs, a) - rows_before(defs, from) + b],
        ),
    decreases a - from,
{
    let head = def_rows(defs[from], 0)->Ok_0;
    let rest = rows_from(defs, from + 1)->Ok_0;
    lemma_def_rows(defs[from], 0, head, 0);
    if from == a {
        lemma_def_rows(defs[a], 0, head, b);
    } else {
        lemma_rows_before_step(defs, from, a);
        lemma_rows_from(defs, from + 1, rest, a, b);
        let at = rows_before(defs, a) - rows_before(defs, from + 1) + b;
    }
}

/// [`rows_before`] grows with the index, by the entries of each transition.
proof fn lemma_rows_before_step(defs: Seq<DefView>, from: int, a: int)
    requires
        0 <= from < a,
    ensures
        rows_before(defs, from + 1) == rows_before(defs, from) + defs[from].transitions.len(),
        rows_before(defs, from + 1) <= rows_before(defs, a),
    decreases a - from,
{
    if from + 1 < a {
        lemma_rows_before_step(defs, from + 1, a);
    }
}

/// The order of declaration is the order of the table: the row of entry
/// `b` of transition `a` stands after all rows of earlier transitions and
/// after the rows of the earlier entries of its own transition.
pub proof fn lemma_row_position(defs: Seq<DefView>, rows: Seq<RowView>, a: int, b: int)
    requires
        rows_of(defs) == Ok::<Seq<RowView>, CompileError>(rows),
        0 <= a < defs.len(),
        0 <= b < defs[a].transitions.len(),
    ensures
        0 <= rows_before(defs, a) + b < rows.len(),
        row_of(defs[a].initial_state, defs[a].transitions[b]) == Ok::<RowView, CompileError>(
            rows[rows_before(defs, a) + b],
        ),
{
    lemma_rows_from(defs, 0, rows, a, b);
}

/// The row of an entry whose target is "stay" has the identifier of the
/// initial state of its transition as its target.
pub proof fn lemma_stay_targets_initial_state(
    defs: Seq<DefView>,
    rows: Seq<RowView>,
    a: int,
    b: int,
)
    requires
        rows_of(defs) == Ok::<Seq<RowView>, CompileError>(rows),
        0 <= a < defs.len(),
        0 <= b < defs[a].transitions.len(),
        defs[a].transitions[b].final_state is None,
    ensures
        0 <= rows_before(defs, a) + b < rows.len(),
        rows[rows_before(defs, a) + b].initial.ident == defs[a].initial_state.ident,
        rows[rows_before(defs, a) + b].target.ident == defs[a].initial_state.ident,
{
    lemma_row_position(defs, rows, a, b);
}

/// `v` is one of the occurrences in `list`.
pub open spec fn occurs_in(list: Seq<VariantView>, v: VariantView) -> bool {
    exists|i: int| 0 <= i < list.len() && #[trigger] list[i] == v
}

/// The initial state and the target of every row occur among the state
/// occurrences of the table.
proof fn lemma_states_occur(rows: Seq<RowView>, k: int)
    requires
        0 <= k < rows.len(),
    ensures
        occurs_in(state_occurrences(rows), rows[k].initial),
        occurs_in(state_occurrences(rows), rows[k].target),
    decreases rows.len(),
{
    let list = state_occurrences(rows);
    let shorter = state_occurrences(rows.drop_last());
    if k == rows.len() - 1 {
        assert(list[shorter.len() as int] == rows[k].initial);
        assert(list[shorter.len() as int + 1] == rows[k].target);
    } else {
        lemma_states_occur(rows.drop_last(), k);
        let i = choose|i: int| 0 <= i < shorter.len() && #[trigger] shorter[i] == rows[k].initial;
        assert(list[i] == rows[k].initial);
        let j = choose|j: int| 0 <= j < shorter.len() && #[trigger] shorter[j] == rows[k].target;
        assert(list[j] == rows[k].target);
    }
}

/// The input of every row occurs among the input occurrences of the table.
proof fn lemma_inputs_occur(rows: Seq<RowView>, k: int)
    requires
        0 <= k < rows.len(),
    ensures
        occurs_in(input_occurrences(rows), rows[k].input),
    decreases rows.len(),
{
    let list = input_occurrences(rows);
    let shorter = input_occurrences(rows.drop_last());
    if k == rows.len() - 1 {
        assert(list[shorter.len() as int] == rows[k].input);
    } else {
        lemma_inputs_occur(rows.drop_last(), k);
        let i = choose|i: int| 0 <= i < shorter.len() && #[trigger] shorter[i] == rows[k].input;
        assert(list[i] == rows[k].input);
    }
}

/// The output of every row that has one occurs among the output
/// occurrences of the table.
proof fn lemma_outputs_occur(rows: Seq<RowView>, k: int)
    requires
        0 <= k < rows.len(),
        rows[k].output is Some,
    ensures
        occurs_in(output_occurrences(rows), rows[k].output->Some_0),
    decreases rows.len(),
{
    let list = output_occurrences(rows);
    let shorter = output_occurrences(rows.drop_last());
    if k == rows.len() - 1 {
        assert(list[shorter.len() as int] == rows[k].output->Some_0);
    } else {
        lemma_outputs_occur(rows.drop_last(), k);
        let i = choose|i: int|
            0 <= i < shorter.len() && #[trigger] shorter[i] == rows[k].output->Some_0;
        if rows.last().output is Some {
            assert(list[i] == rows[k].output->Some_0);
        }
    }
}

/// The alphabet holds exactly one member for `ident`.
pub open spec fn one_member(members: Seq<MemberView>, ident: Seq<char>) -> bool {
    &&& exists|j: int| is_member(members, j, ident)
    &&& forall|j: int, k: int|
        is_member(members, j, ident) && is_member(members, k, ident) ==> j == k
}

/// Every identifier of the table has exactly one member in its alphabet:
/// the states that rows start from and lead to in the state alphabet, the
/// inputs in the input alphabet, the outputs in the output alphabet.
pub open spec fn closed(m: MachineView) -> bool {
    forall|k: int|
        0 <= k < m.rows.len() ==> {
            &&& one_member(m.states, (#[trigger] m.rows[k]).initial.ident)
            &&& one_member(m.states, m.rows[k].target.ident)
            &&& one_member(m.inputs, m.rows[k].input.ident)
            &&& (m.rows[k].output matches Some(output) ==> one_member(m.outputs, output.ident))
        }
}

/// Some row starts from or leads to the state `ident`.
pub open spec fn state_in_table(rows: Seq<RowView>, ident: Seq<char>) -> bool {
    exists|k: int|
        0 <= k < rows.len() && ((#[trigger] rows[k]).initial.ident == ident || rows[k].target.ident
            == ident)
}

/// Some row is declared for the input `ident`.
pub open spec fn input_in_table(rows: Seq<RowView>, ident: Seq<char>) -> bool {
    exists|k: int| 0 <= k < rows.len() && (#[trigger] rows[k]).input.ident == ident
}

/// Some row emits the output `ident`.
pub open spec fn output_in_table(rows: Seq<RowView>, ident: Seq<char>) -> bool {
    exists|k: int|
        0 <= k < rows.len() && (#[trigger] rows[k]).output is Some && rows[k].output->Some_0.ident
            == ident
}

/// The alphabets hold nothing that the table does not name.
pub open spec fn tight(m: MachineView) -> bool {
    &&& forall|j: int|
        0 <= j < m.states.len() ==> state_in_table(m.rows, (#[trigger] m.states[j]).ident)
    &&& forall|j: int|
        0 <= j < m.inputs.len() ==> input_in_table(m.rows, (#[trigger] m.inputs[j]).ident)
    &&& forall|j: int|
        0 <= j < m.outputs.len() ==> output_in_table(m.rows, (#[trigger] m.outputs[j]).ident)
}

/// What holds of every machine that analysis builds: it has a table; every
/// identifier of the table has exactly one member in its alphabet; no
/// alphabet holds an identifier twice, or one that the table does not name.
pub open spec fn well_formed(m: MachineView) -> bool {
    &&& m.rows.len() > 0
    &&& closed(m)
    &&& distinct(m.states)
    &&& distinct(m.inputs)
    &&& distinct(m.outputs)
    &&& tight(m)
}

/// Every state occurrence of the table is the initial state or the target
/// of some row.
proof fn lemma_state_occurrence(rows: Seq<RowView>, i: int)
    requires
        0 <= i < state_occurrences(rows).len(),
    ensures
        state_in_table(rows, state_occurrences(rows)[i].ident),
    decreases rows.len(),
{
    let shorter = state_occurrences(rows.drop_last());
    if i < shorter.len() {
        lemma_state_occurrence(rows.drop_last(), i);
        let k = choose|k: int|
            0 <= k < rows.drop_last().len() && ((#[trigger] rows.drop_last()[k]).initial.ident
                == shorter[i].ident || rows.drop_last()[k].target.ident == shorter[i].ident);
        assert(rows[k] == rows.drop_last()[k]);
    } else {
        assert(rows[rows.len() - 1] == rows.last());
    }
}

/// Every input occurrence of the table is the input of some row.
proof fn lemma_input_occurrence(rows: Seq<RowView>, i: int)
    requires
        0 <= i < input_occurrences(rows).len(),
    ensures
        input_in_table(rows, input_occurrences(rows)[i].ident),
    decreases rows.len(),
{
    let shorter = input_occurrences(rows.drop_last());
    if i < shorter.len() {
        lemma_input_occurrence(rows.drop_last(), i);
        let k = choose|k: int|
            0 <= k < rows.drop_last().len() && (#[trigger] rows.drop_last()[k]).input.ident
                == shorter[i].ident;
        assert(rows[k] == rows.drop_last()[k]);
    } else {
        assert(rows[rows.len() - 1] == rows.last());
    }
}

/// Every output occurrence of the table is the output of some row.
proof fn lemma_output_occurrence(rows: Seq<RowView>, i: int)
    requires
        0 <= i < output_occurrences(rows).len(),
    ensures
        output_in_table(rows, output_occurrences(rows)[i].ident),
    decreases rows.len(),
{
    let shorter = output_occurrences(rows.drop_last());
    if i < shorter.len() {
        lemma_output_occurrence(rows.drop_last(), i);
        let k = choose|k: int|
            0 <= k < rows.drop_last().len() && (#[trigger] rows.drop_last()[k]).output is Some
                && rows.drop_last()[k].output->Some_0.ident == shorter[i].ident;
        assert(rows[k] == rows.drop_last()[k]);
    } else {
        assert(rows[rows.len() - 1] == rows.last());
    }
}

/// The alphabets that analysis builds hold nothing that the table does not
/// name.
proof fn lemma_analysis_is_tight(def: MachineDefView, m: MachineView)
    requires
        analysis(def) == Ok::<MachineView, CompileError>(m),
    ensures
        tight(m),
{
    let states = state_occurrences(m.rows);
    assert forall|j: int| 0 <= j < m.states.len() implies state_in_table(
        m.rows,
        (#[trigger] m.states[j]).ident,
    ) by {
        lemma_members_occur(states, m.states, j);
        let i = choose|i: int|
            0 <= i < states.len() && #[trigger] states[i].ident == m.states[j].ident;
        lemma_state_occurrence(m.rows, i);
    }
    let inputs = input_occurrences(m.rows);
    assert forall|j: int| 0 <= j < m.inputs.len() implies input_in_table(
        m.rows,
        (#[trigger] m.inputs[j]).ident,
    ) by {
        lemma_members_occur(inputs, m.inputs, j);
        let i = choose|i: int|
            0 <= i < inputs.len() && #[trigger] inputs[i].ident == m.inputs[j].ident;
        lemma_input_occurrence(m.rows, i);
    }
    let outputs = output_occurrences(m.rows);
    assert forall|j: int| 0 <= j < m.outputs.len() implies output_in_table(
        m.rows,
        (#[trigger] m.outputs[j]).ident,
    ) by {
        lemma_members_occur(outputs, m.outputs, j);
        let i = choose|i: int|
            0 <= i < outputs.len() && #[trigger] outputs[i].ident == m.outputs[j].ident;
        lemma_output_occurrence(m.rows, i);
    }
}

/// The machine that analysis builds is well formed.
pub proof fn lemma_analysis_is_well_formed(def: MachineDefView, m: MachineView)
    requires
        analysis(def) == Ok::<MachineView, CompileError>(m),
    ensures
        well_formed(m),
{
    lemma_analysis_is_closed(def, m);
    lemma_analysis_is_tight(def, m);
    lemma_alphabet_is_distinct(state_occurrences(m.rows), m.states);
    lemma_alphabet_is_distinct(input_occurrences(m.rows), m.inputs);
    lemma_alphabet_is_distinct(output_occurrences(m.rows), m.outputs);
}

/// The machine that analysis builds has a table, and however often its
/// identifiers are mentioned, each has exactly one member in its alphabet.
pub proof fn lemma_analysis_is_closed(def: MachineDefView, m: MachineView)
    requires
        analysis(def) == Ok::<MachineView, CompileError>(m),
    ensures
        m.rows.len() > 0,
        closed(m),
{
    lemma_rows_nonempty(def.transitions, m.rows);
    assert forall|k: int| 0 <= k < m.rows.len() implies {
        &&& one_member(m.states, (#[trigger] m.rows[k]).initial.ident)
        &&& one_member(m.states, m.rows[k].target.ident)
        &&& one_member(m.inputs, m.rows[k].input.ident)
        &&& (m.rows[k].output matches Some(output) ==> one_member(m.outputs, output.ident))
    } by {
        let row = m.rows[k];
        lemma_states_occur(m.rows, k);
        lemma_inputs_occur(m.rows, k);
        let states = state_occurrences(m.rows);
        let i = choose|i: int| 0 <= i < states.len() && #[trigger] states[i] == row.initial;
        lemma_one_member_each(states, m.states, i);
        let t = choose|t: int| 0 <= t < states.len() && #[trigger] states[t] == row.target;
        lemma_one_member_each(states, m.states, t);
        let inputs = input_occurrences(m.rows);
        let x = choose|x: int| 0 <= x < inputs.len() && #[trigger] inputs[x] == row.input;
        lemma_one_member_each(inputs, m.inputs, x);
        if row.output is Some {
            lemma_outputs_occur(m.rows, k);
            let outputs = output_occurrences(m.rows);
            let o = choose|o: int|
                0 <= o < outputs.len() && #[trigger] outputs[o] == row.output->Some_0;
            lemma_one_member_each(outputs, m.outputs, o);
        }
    }
}

/// A list of transitions that is not empty gives a table that is not
/// empty.
proof fn lemma_rows_nonempty(defs: Seq<DefView>, rows: Seq<RowView>)
    requires
        defs.len() > 0,
        rows_of(defs) == Ok::<Seq<RowView>, CompileError>(rows),
    ensures
        rows.len() > 0,
{
    lemma_row_position(defs, rows, 0, 0);
}

/// A step never leaves the alphabets: the new state that a closed machine
/// answers with is a member of its state alphabet, and the output, if
/// there is one, a member of its output alphabet.
pub proof fn lemma_step_stays_in_alphabets(
    m: MachineView,
    state: Seq<char>,
    input: Seq<char>,
    holds: Seq<bool>,
)
    requires
        closed(m),
    ensures
        step(m.rows, state, input, holds) matches Some((next, output)) ==> one_member(
            m.states,
            next,
        ) && (output matches Some(o) ==> one_member(m.outputs, o)),
{
    lemma_first_firing(m.rows, 0, state, input, holds);
}

} // verus!
