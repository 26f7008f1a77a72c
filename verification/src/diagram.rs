//! A picture of the transition table as text: one line for each row, in
//! the notation of Mermaid state diagrams. Characters that the notation
//! reserves are written as character references.

use crate::machine::{Machine, Row, RowView};
use crate::token::{render, text_of};
use crate::variant::{match_tokens, Final, Variant};
use vstd::prelude::*;
use vstd::string::StrSliceExecFns;
use vstd::string::StringExecFns;

verus! {

/// How one character is written in a label: the characters `:`, `(`, `)`,
/// `[`, `]` and `|` as character references, every other character as it
/// is.
pub open spec fn escape_char(c: char) -> Seq<char> {
    if c == ':' {
        "#58;"@
    } else if c == '(' {
        "#40;"@
    } else if c == ')' {
        "#41;"@
    } else if c == '[' {
        "#91;"@
    } else if c == ']' {
        "#93;"@
    } else if c == '|' {
        "#124;"@
    } else {
        seq![c]
    }
}

/// How a text is written in a label: character by character.
pub open spec fn escaped(s: Seq<char>) -> Seq<char>
    decreases s.len(),
{
    if s.len() == 0 {
        Seq::empty()
    } else {
        escaped(s.drop_last()) + escape_char(s.last())
    }
}

/// The part of a line that shows the output of a row, if it has one.
pub open spec fn output_label(row: RowView) -> Seq<char> {
    match row.output {
        Some(output) => "#91;"@ + escaped(output.ident) + "#93;"@,
        None => Seq::empty(),
    }
}

/// The line of a row: `    Initial --> Target: input [Output]`, where the
/// input is shown as it is matched, with its pattern and guard, each token
/// followed by a space.
pub open spec fn diagram_line(row: RowView) -> Seq<char> {
    "    "@ + escaped(row.initial.ident) + " --> "@ + escaped(row.target.ident) + ": "@ + escaped(
        text_of(match_tokens(row.input)),
    ) + output_label(row) + "\n"@
}

/// The lines of the rows, in the order of the table.
pub open spec fn diagram_lines(rows: Seq<RowView>) -> Seq<char>
    decreases rows.len(),
{
    if rows.len() == 0 {
        Seq::empty()
    } else {
        diagram_lines(rows.drop_last()) + diagram_line(rows.last())
    }
}

/// The diagram of a table: the heading, then one line for each row.
pub open spec fn diagram_text(rows: Seq<RowView>) -> Seq<char> {
    "stateDiagram-v2\n"@ + diagram_lines(rows)
}

/// Appends `text` to `out` as a label.
pub fn escape_into(out: &mut String, text: &str)
    ensures
        final(out)@ == old(out)@ + escaped(text@),
{
    let ghost before = out@;
    let n = text.unicode_len();
    let mut i: usize = 0;
    while i < n
        invariant
            i <= n,
            n == text@.len(),
            out@ == before + escaped(text@.subrange(0, i as int)),
        decreases n - i,
    {
        let c = text.get_char(i);
        assert(text@.subrange(0, i + 1).drop_last() =~= text@.subrange(0, i as int));
        if c == ':' {
            out.append("#58;");
        } else if c == '(' {
            out.append("#40;");
        } else if c == ')' {
            out.append("#41;");
        } else if c == '[' {
            out.append("#91;");
        } else if c == ']' {
            out.append("#93;");
        } else if c == '|' {
            out.append("#124;");
        } else {
            let mut one = String::new();
            push_one(&mut one, c);
            out.append(one.as_str());
        }
        i += 1;
    }
    assert(text@.subrange(0, n as int) =~= text@);
}

/// Appends the character `c` to the empty string `s`.
fn push_one(s: &mut String, c: char)
    requires
        old(s)@.len() == 0,
    ensures
        final(s)@ == seq![c],
{
    crate::token::push_char(s, c);
}

impl Variant {
    /// How the occurrence is named in a diagram: by its identifier.
    pub fn label(&self) -> (text: String)
        ensures
            text@ == self@.ident,
    {
        self.ident.clone()
    }
}

impl Final {
    /// How the target is named in a diagram: by its identifier, or as `_`
    /// where it means "stay".
    pub fn label(&self) -> (text: String)
        ensures
            text@ == match self@ {
                Some(v) => v.ident,
                None => "_"@,
            },
    {
        match &self.0 {
            Some(v) => v.label(),
            None => "_".to_owned(),
        }
    }
}

impl Row {
    /// The line that shows this row in a diagram.
    pub fn diagram_line(&self) -> (line: String)
        ensures
            line@ == diagram_line(self@),
    {
        let mut line = "    ".to_owned();
        escape_into(&mut line, self.initial.label().as_str());
        line.append(" --> ");
        escape_into(&mut line, self.target.label().as_str());
        line.append(": ");
        escape_into(&mut line, render(&self.input.match_on()).as_str());
        match &self.output {
            Some(output) => {
                line.append("#91;");
                escape_into(&mut line, output.label().as_str());
                line.append("#93;");
            },
            None => {},
        }
        line.append("\n");
        line
    }
}

impl Machine {
    /// Draws the transition table as a Mermaid state diagram: the heading
    /// `stateDiagram-v2`, then one line for each row, in the order of the
    /// table. The diagram plays no part in what the machine does.
    pub fn diagram(&self) -> (text: String)
        ensures
            text@ == diagram_text(self@.rows),
    {
        let ghost rows = self.rows.deep_view();
        let mut text = "stateDiagram-v2\n".to_owned();
        let mut i: usize = 0;
        while i < self.rows.len()
            invariant
                i <= self.rows.len(),
                rows == self.rows.deep_view(),
                text@ == "stateDiagram-v2\n"@ + diagram_lines(rows.subrange(0, i as int)),
            decreases self.rows.len() - i,
        {
            assert(rows.subrange(0, i + 1).drop_last() =~= rows.subrange(0, i as int));
            text.append(self.rows[i].diagram_line().as_str());
            i += 1;
        }
        assert(rows.subrange(0, self.rows.len() as int) =~= rows);
        text
    }
}

} // verus!
