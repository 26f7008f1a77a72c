//! Compiler for a small language that describes finite-state machines.
//!
//! A description arrives as a flat sequence of tokens. It is parsed into a
//! [`parser::StateMachineDef`], its Rust fragments are checked, and the result
//! is analysed into a [`machine::Machine`]: three alphabets and an ordered
//! transition table. The machine can be run directly, emitted as Rust code,
//! or drawn as a diagram.
//!
//! - [`token`]: tokens, the search for brackets and separators, source text;
//! - [`syntax`]: what is a Rust identifier, type, pattern or expression;
//! - [`variant`]: states, inputs and outputs as written, and alphabets;
//! - [`order`]: the order of states, inputs and outputs;
//! - [`parser`]: the grammar of a description;
//! - [`machine`]: the transition table and the step function;
//! - [`emit`]: the generated code;
//! - [`diagram`]: the diagram;
//! - [`error`]: diagnostics.

pub mod error;
pub mod token;
pub mod syntax;
pub mod variant;
pub mod order;
pub mod parser;
pub mod machine;
pub mod emit;
pub mod diagram;

use crate::emit::code_tokens;
use crate::error::{outcome, CompileError};
use crate::machine::{analysis, well_formed, Machine, MachineView};
use crate::parser::{machine_parsed, StateMachineDef};
use crate::token::{Tok, Token};
use vstd::prelude::*;

verus! {

/// The machine that a token sequence describes: the description is parsed
/// and the result is analysed. The first failure on this way is the
/// outcome.
pub open spec fn compiled(ts: Seq<Tok>) -> Result<MachineView, CompileError> {
    match machine_parsed(ts) {
        Ok(def) => analysis(def),
        Err(e) => Err(e),
    }
}

/// The code that a token sequence expands to: the code of the machine it
/// describes, or the diagnostic that says why it describes none.
pub open spec fn expansion(ts: Seq<Tok>) -> Result<Seq<Tok>, CompileError> {
    match compiled(ts) {
        Ok(m) => Ok(code_tokens(m)),
        Err(e) => Err(e),
    }
}

/// Compiles a description into a machine, or says what is wrong with it
/// and where.
pub fn compile(tokens: &Vec<Token>) -> (r: Result<Machine, CompileError>)
    ensures
        outcome(r) == compiled(tokens.deep_view()),
        r matches Ok(machine) ==> well_formed(machine@),
{
    match StateMachineDef::parse(tokens) {
        Ok(def) => Machine::new(def),
        Err(e) => Err(e),
    }
}

/// Produces the definition of a state machine from its description: the
/// enumerations of states, inputs and outputs, and the transition function.
/// A description that cannot be compiled yields no code, but the diagnostic
/// that says what is wrong with it and where.
pub fn state_machine(tokens: Vec<Token>) -> (r: Result<Vec<Token>, CompileError>)
    ensures
        outcome(r) == expansion(tokens.deep_view()),
{
    match compile(&tokens) {
        Ok(machine) => Ok(machine.emit()),
        Err(e) => Err(e),
    }
}

} // verus!
