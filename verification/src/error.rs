//! Diagnostics. Every failure of the compiler is fatal and is reported with
//! the position, in the token sequence, of what it is about.

use vstd::prelude::*;

verus! {

/// What went wrong.
#[derive(Clone, Copy, Debug, PartialEq, Eq, Structural)]
pub enum ErrorKind {
    /// An identifier was expected, or a keyword stands where a name must.
    ExpectedIdent,
    /// A `=>` separator is missing.
    MissingArrow,
    /// A bracket, brace, parenthesis or angle bracket is never closed.
    Unterminated,
    /// Something follows where a comma or the end was expected.
    UnexpectedToken,
    /// A block of transitions in braces holds no transition.
    EmptyBlock,
    /// The data clause of a state, input or output is not well formed.
    MalformedData,
    /// The header carries a malformed attribute, visibility, generic
    /// parameter list or path.
    MalformedHeader,
    /// The description declares no transition at all.
    NoTransitions,
    /// An identifier carries data somewhere but its type is given nowhere.
    TypeNeverSpecified,
    /// `_` stands where an output must be named.
    StayOutput,
}

/// A located diagnostic.
#[derive(Clone, Copy, Debug, PartialEq, Eq, Structural)]
pub struct CompileError {
    pub kind: ErrorKind,
    /// Index of the offending token; the length of the input where the
    /// input ended too early.
    pub position: usize,
}

/// The text of a diagnostic of kind `kind`.
pub open spec fn message_of(kind: ErrorKind) -> Seq<char> {
    match kind {
        ErrorKind::ExpectedIdent => "expected identifier"@,
        ErrorKind::MissingArrow => "expected `=>`"@,
        ErrorKind::Unterminated => "unterminated bracket"@,
        ErrorKind::UnexpectedToken => "unexpected token"@,
        ErrorKind::EmptyBlock => "No transitions provided for a compact representation"@,
        ErrorKind::MalformedData => "malformed associated data"@,
        ErrorKind::MalformedHeader => "malformed header"@,
        ErrorKind::NoTransitions => "rust-fsm: at least one state transition must be provided"@,
        ErrorKind::TypeNeverSpecified => "type never specified"@,
        ErrorKind::StayOutput => "`_` cannot name an output"@,
    }
}

impl CompileError {
    /// The text of the diagnostic.
    pub fn message(&self) -> (text: String)
        ensures
            text@ == message_of(self.kind),
    {
        match self.kind {
            ErrorKind::ExpectedIdent => "expected identifier".to_owned(),
            ErrorKind::MissingArrow => "expected `=>`".to_owned(),
            ErrorKind::Unterminated => "unterminated bracket".to_owned(),
            ErrorKind::UnexpectedToken => "unexpected token".to_owned(),
            ErrorKind::EmptyBlock => "No transitions provided for a compact representation"
                .to_owned(),
            ErrorKind::MalformedData => "malformed associated data".to_owned(),
            ErrorKind::MalformedHeader => "malformed header".to_owned(),
            ErrorKind::NoTransitions => "rust-fsm: at least one state transition must be provided"
                .to_owned(),
            ErrorKind::TypeNeverSpecified => "type never specified".to_owned(),
            ErrorKind::StayOutput => "`_` cannot name an output".to_owned(),
        }
    }
}

/// The diagnostic of kind `kind` at `position`.
pub open spec fn error_at(kind: ErrorKind, position: int) -> CompileError {
    CompileError { kind, position: position as usize }
}

/// The model of a result: the model of the value, or the diagnostic.
pub open spec fn outcome<T: DeepView>(r: Result<T, CompileError>) -> Result<T::V, CompileError> {
    match r {
        Ok(value) => Ok(value.deep_view()),
        Err(e) => Err(e),
    }
}

/// The model of the result of reading at a position: the model of what was
/// read together with the position after it, or the diagnostic.
pub open spec fn reading<T: DeepView>(r: Result<(T, usize), CompileError>) -> Result<
    (T::V, int),
    CompileError,
> {
    match r {
        Ok((value, next)) => Ok((value.deep_view(), next as int)),
        Err(e) => Err(e),
    }
}

/// What is wrong with a named thing at `span`, given whether its name is
/// an identifier and whether the rest of it is well formed: a name that is
/// no identifier is reported first, a malformed rest as `kind`.
pub open spec fn fault_of(span: usize, name_ok: bool, rest_ok: bool, kind: ErrorKind) -> Option<
    CompileError,
> {
    if !name_ok {
        Some(error_at(ErrorKind::ExpectedIdent, span as int))
    } else if !rest_ok {
        Some(error_at(kind, span as int))
    } else {
        None
    }
}

/// The result of looking for a fault: the fault, or nothing to report.
pub open spec fn verdict(fault: Option<CompileError>) -> Result<(), CompileError> {
    match fault {
        Some(e) => Err(e),
        None => Ok(()),
    }
}

/// Judges a named thing at `span` by what is known of its parts: whether
/// its name is an identifier, and whether the rest of it is well formed.
/// A name that is no identifier is reported first, a malformed rest as
/// `kind`.
pub fn judge(span: usize, name_ok: bool, rest_ok: bool, kind: ErrorKind) -> (r: Result<
    (),
    CompileError,
>)
    ensures
        r == verdict(fault_of(span, name_ok, rest_ok, kind)),
{
    if !name_ok {
        Err(CompileError { kind: ErrorKind::ExpectedIdent, position: span })
    } else if !rest_ok {
        Err(CompileError { kind, position: span })
    } else {
        Ok(())
    }
}

} // verus!
