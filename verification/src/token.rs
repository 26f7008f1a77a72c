//! Flat token sequences: the form in which source text reaches the compiler
//! and in which generated code leaves it.

use vstd::prelude::*;
use vstd::string::StringExecFns;

verus! {

/// The three bracket shapes of Rust source text.
#[derive(Clone, Copy, Debug, PartialEq, Eq, Structural)]
pub enum Delimiter {
    Parenthesis,
    Brace,
    Bracket,
}

/// One lexical token. Groups are not nested: an opening and a closing
/// delimiter are tokens of their own.
#[derive(Clone, Debug, PartialEq, Eq)]
pub enum Token {
    /// An identifier or keyword, `_` included.
    Ident(String),
    /// One punctuation character; the flag says that the next punctuation
    /// character follows it without a gap, as `=` does in `=>`.
    Punct(char, bool),
    /// A literal, as written in the source.
    Literal(String),
    Open(Delimiter),
    Close(Delimiter),
}

/// Mathematical model of a [`Token`].
pub enum Tok {
    Ident(Seq<char>),
    Punct(char, bool),
    Literal(Seq<char>),
    Open(Delimiter),
    Close(Delimiter),
}

impl DeepView for Token {
    type V = Tok;

    open spec fn deep_view(&self) -> Tok {
        match self {
            Token::Ident(s) => Tok::Ident(s@),
            Token::Punct(c, joint) => Tok::Punct(*c, *joint),
            Token::Literal(s) => Tok::Literal(s@),
            Token::Open(d) => Tok::Open(*d),
            Token::Close(d) => Tok::Close(*d),
        }
    }
}

impl View for Token {
    type V = Tok;

    open spec fn view(&self) -> Tok {
        self.deep_view()
    }
}

/// The separators that the language looks for outside of brackets.
#[derive(Clone, Copy, Debug, PartialEq, Eq, Structural)]
pub enum Mark {
    /// `=>`
    Arrow,
    /// `,`
    Comma,
    /// the keyword `if`
    If,
}

/// `=>` starts at `pos` and ends before `hi`.
pub open spec fn arrow_at(ts: Seq<Tok>, pos: int, hi: int) -> bool {
    &&& 0 <= pos
    &&& pos + 1 < hi <= ts.len()
    &&& ts[pos] == Tok::Punct('=', true)
    &&& ts[pos + 1] is Punct
    &&& ts[pos + 1]->Punct_0 == '>'
}

/// `::` starts at `pos` and ends before `hi`.
pub open spec fn colons_at(ts: Seq<Tok>, pos: int, hi: int) -> bool {
    &&& 0 <= pos
    &&& pos + 1 < hi <= ts.len()
    &&& ts[pos] == Tok::Punct(':', true)
    &&& ts[pos + 1] is Punct
    &&& ts[pos + 1]->Punct_0 == ':'
}

/// The token at `pos` is the punctuation character `c`.
pub open spec fn punct_at(ts: Seq<Tok>, pos: int, hi: int, c: char) -> bool {
    &&& 0 <= pos < hi <= ts.len()
    &&& ts[pos] is Punct
    &&& ts[pos]->Punct_0 == c
}

/// The token at `pos` is the word `word`.
pub open spec fn word_at(ts: Seq<Tok>, pos: int, hi: int, word: Seq<char>) -> bool {
    &&& 0 <= pos < hi <= ts.len()
    &&& ts[pos] == Tok::Ident(word)
}

/// The token at `pos` is an identifier or keyword.
pub open spec fn ident_at(ts: Seq<Tok>, pos: int, hi: int) -> bool {
    &&& 0 <= pos < hi <= ts.len()
    &&& ts[pos] is Ident
}

/// The token at `pos` opens a group of shape `d`.
pub open spec fn open_at(ts: Seq<Tok>, pos: int, hi: int, d: Delimiter) -> bool {
    &&& 0 <= pos < hi <= ts.len()
    &&& ts[pos] == Tok::Open(d)
}

/// The separator `mark` starts at `pos`.
pub open spec fn mark_at(ts: Seq<Tok>, pos: int, hi: int, mark: Mark) -> bool {
    match mark {
        Mark::Arrow => arrow_at(ts, pos, hi),
        Mark::Comma => punct_at(ts, pos, hi, ','),
        Mark::If => word_at(ts, pos, hi, "if"@),
    }
}

/// The model of a position that a search has found, if it has found one.
pub open spec fn found_at(found: Option<usize>) -> Option<int> {
    match found {
        Some(k) => Some(k as int),
        None => None,
    }
}

/// Scanning from `pos` at nesting depth `depth`, the position of the first
/// closing delimiter that is not matched by an opening one seen on the way.
/// The scan stops before `hi`.
pub open spec fn close_from(ts: Seq<Tok>, pos: int, hi: int, depth: nat) -> Option<int>
    decreases hi - pos,
{
    if pos < 0 || pos >= hi || hi > ts.len() {
        None
    } else {
        match ts[pos] {
            Tok::Open(_) => close_from(ts, pos + 1, hi, depth + 1),
            Tok::Close(_) => if depth == 0 {
                Some(pos)
            } else {
                close_from(ts, pos + 1, hi, (depth - 1) as nat)
            },
            _ => close_from(ts, pos + 1, hi, depth),
        }
    }
}

/// Where the group that opens at `open` closes: the first unmatched closing
/// delimiter after it, provided it has the same shape.
pub open spec fn group_end(ts: Seq<Tok>, open: int, hi: int) -> Option<int> {
    if 0 <= open < hi <= ts.len() && ts[open] is Open {
        match close_from(ts, open + 1, hi, 0) {
            Some(c) => if ts[c] == Tok::Close(ts[open]->Open_0) {
                Some(c)
            } else {
                None
            },
            None => None,
        }
    } else {
        None
    }
}

/// Scanning from `pos` at nesting depth `depth`, the first position outside
/// of all brackets at which `mark` starts. The scan stops before `hi`.
pub open spec fn mark_from(ts: Seq<Tok>, pos: int, hi: int, depth: nat, mark: Mark) -> Option<int>
    decreases hi - pos,
{
    if pos < 0 || pos >= hi || hi > ts.len() {
        None
    } else if depth == 0 && mark_at(ts, pos, hi, mark) {
        Some(pos)
    } else {
        match ts[pos] {
            Tok::Open(_) => mark_from(ts, pos + 1, hi, depth + 1, mark),
            Tok::Close(_) => mark_from(
                ts,
                pos + 1,
                hi,
                if depth > 0 {
                    (depth - 1) as nat
                } else {
                    0
                },
                mark,
            ),
            _ => mark_from(ts, pos + 1, hi, depth, mark),
        }
    }
}

/// The first top-level occurrence of `mark` in `lo..hi`.
pub open spec fn find_mark(ts: Seq<Tok>, lo: int, hi: int, mark: Mark) -> Option<int> {
    mark_from(ts, lo, hi, 0, mark)
}

/// Scanning from `pos` inside `open` angle brackets and `depth` delimiters,
/// the position of the `>` that closes the outermost angle bracket. A `>`
/// that completes `->` or `=>` does not count, nor does anything inside
/// delimiters.
pub open spec fn angle_from(ts: Seq<Tok>, pos: int, hi: int, depth: nat, open: nat) -> Option<int>
    decreases hi - pos,
{
    if pos < 1 || pos >= hi || hi > ts.len() || open == 0 {
        None
    } else {
        match ts[pos] {
            Tok::Open(_) => angle_from(ts, pos + 1, hi, depth + 1, open),
            Tok::Close(_) => if depth == 0 {
                None
            } else {
                angle_from(ts, pos + 1, hi, (depth - 1) as nat, open)
            },
            Tok::Punct(c, _) => if depth == 0 && c == '<' {
                angle_from(ts, pos + 1, hi, depth, open + 1)
            } else if depth == 0 && c == '>' && ts[pos - 1] != Tok::Punct('-', true) && ts[pos
                - 1] != Tok::Punct('=', true) {
                if open == 1 {
                    Some(pos)
                } else {
                    angle_from(ts, pos + 1, hi, depth, (open - 1) as nat)
                }
            } else {
                angle_from(ts, pos + 1, hi, depth, open)
            },
            _ => angle_from(ts, pos + 1, hi, depth, open),
        }
    }
}

/// Where the angle bracket that opens at `open` closes.
pub open spec fn angle_end(ts: Seq<Tok>, open: int, hi: int) -> Option<int> {
    if punct_at(ts, open, hi, '<') {
        angle_from(ts, open + 1, hi, 0, 1)
    } else {
        None
    }
}

/// The character that opens a group of shape `d`.
pub open spec fn open_char(d: Delimiter) -> char {
    match d {
        Delimiter::Parenthesis => '(',
        Delimiter::Brace => '{',
        Delimiter::Bracket => '[',
    }
}

/// The character that closes a group of shape `d`.
pub open spec fn close_char(d: Delimiter) -> char {
    match d {
        Delimiter::Parenthesis => ')',
        Delimiter::Brace => '}',
        Delimiter::Bracket => ']',
    }
}

/// How one token is written: its text, and a space unless the token is
/// punctuation joined to what follows.
pub open spec fn tok_text(t: Tok) -> Seq<char> {
    match t {
        Tok::Ident(s) => s.push(' '),
        Tok::Punct(c, joint) => if joint {
            seq![c]
        } else {
            seq![c, ' ']
        },
        Tok::Literal(s) => s.push(' '),
        Tok::Open(d) => seq![open_char(d), ' '],
        Tok::Close(d) => seq![close_char(d), ' '],
    }
}

/// How a token sequence is written as source text.
pub open spec fn text_of(ts: Seq<Tok>) -> Seq<char>
    decreases ts.len(),
{
    if ts.len() == 0 {
        seq![]
    } else {
        text_of(ts.drop_last()) + tok_text(ts.last())
    }
}

/// A closing delimiter found by [`close_from`] lies in the scanned range.
pub proof fn lemma_close_from_bounds(ts: Seq<Tok>, pos: int, hi: int, depth: nat)
    ensures
        close_from(ts, pos, hi, depth) matches Some(c) ==> pos <= c < hi && ts[c] is Close,
    decreases hi - pos,
{
    if !(pos < 0 || pos >= hi || hi > ts.len()) {
        match ts[pos] {
            Tok::Open(_) => lemma_close_from_bounds(ts, pos + 1, hi, depth + 1),
            Tok::Close(_) => if depth != 0 {
                lemma_close_from_bounds(ts, pos + 1, hi, (depth - 1) as nat)
            },
            _ => lemma_close_from_bounds(ts, pos + 1, hi, depth),
        }
    }
}

/// A separator found by [`mark_from`] lies in the scanned range and is one.
pub proof fn lemma_mark_from_bounds(ts: Seq<Tok>, pos: int, hi: int, depth: nat, mark: Mark)
    ensures
        mark_from(ts, pos, hi, depth, mark) matches Some(k) ==> pos <= k < hi && mark_at(
            ts,
            k,
            hi,
            mark,
        ),
    decreases hi - pos,
{
    if !(pos < 0 || pos >= hi || hi > ts.len()) && !(depth == 0 && mark_at(ts, pos, hi, mark)) {
        match ts[pos] {
            Tok::Open(_) => lemma_mark_from_bounds(ts, pos + 1, hi, depth + 1, mark),
            Tok::Close(_) => lemma_mark_from_bounds(
                ts,
                pos + 1,
                hi,
                if depth > 0 {
                    (depth - 1) as nat
                } else {
                    0
                },
                mark,
            ),
            _ => lemma_mark_from_bounds(ts, pos + 1, hi, depth, mark),
        }
    }
}

/// A closing `>` found by [`angle_from`] lies in the scanned range.
pub proof fn lemma_angle_from_bounds(ts: Seq<Tok>, pos: int, hi: int, depth: nat, open: nat)
    ensures
        angle_from(ts, pos, hi, depth, open) matches Some(c) ==> pos <= c < hi && punct_at(
            ts,
            c,
            hi,
            '>',
        ),
    decreases hi - pos,
{
    if !(pos < 1 || pos >= hi || hi > ts.len() || open == 0) {
        match ts[pos] {
            Tok::Open(_) => lemma_angle_from_bounds(ts, pos + 1, hi, depth + 1, open),
            Tok::Close(_) => if depth != 0 {
                lemma_angle_from_bounds(ts, pos + 1, hi, (depth - 1) as nat, open)
            },
            Tok::Punct(c, _) => if depth == 0 && c == '<' {
                lemma_angle_from_bounds(ts, pos + 1, hi, depth, open + 1)
            } else if depth == 0 && c == '>' && ts[pos - 1] != Tok::Punct('-', true) && ts[pos
                - 1] != Tok::Punct('=', true) {
                if open != 1 {
                    lemma_angle_from_bounds(ts, pos + 1, hi, depth, (open - 1) as nat)
                }
            } else {
                lemma_angle_from_bounds(ts, pos + 1, hi, depth, open)
            },
            _ => lemma_angle_from_bounds(ts, pos + 1, hi, depth, open),
        }
    }
}

/// The nesting depth at `pos` for a scan that starts at `lo` outside of all
/// brackets: the number of groups opened since then and not yet closed. A
/// closing delimiter that closes nothing leaves the depth at zero.
pub open spec fn level(ts: Seq<Tok>, lo: int, pos: int) -> nat
    decreases pos - lo,
{
    if pos <= lo || pos > ts.len() || lo < 0 {
        0
    } else {
        let before = level(ts, lo, pos - 1);
        match ts[pos - 1] {
            Tok::Open(_) => before + 1,
            Tok::Close(_) => if before > 0 {
                (before - 1) as nat
            } else {
                0
            },
            _ => before,
        }
    }
}

/// `mark` starts at `pos`, outside of all brackets that open in `lo..pos`.
pub open spec fn top_level_mark(ts: Seq<Tok>, lo: int, pos: int, hi: int, mark: Mark) -> bool {
    lo <= pos < hi && level(ts, lo, pos) == 0 && mark_at(ts, pos, hi, mark)
}

/// A closing delimiter stands at `pos` and closes no group that opens in
/// `lo..pos`.
pub open spec fn unmatched_close(ts: Seq<Tok>, lo: int, pos: int, hi: int) -> bool {
    lo <= pos < hi && level(ts, lo, pos) == 0 && ts[pos] is Close
}

/// A scan that has reached `pos` at the depth that [`level`] gives finds
/// what a scan from `lo` finds.
proof fn lemma_mark_from_level(ts: Seq<Tok>, lo: int, pos: int, hi: int, mark: Mark)
    requires
        0 <= lo <= pos <= hi <= ts.len(),
        forall|j: int| lo <= j < pos ==> !top_level_mark(ts, lo, j, hi, mark),
    ensures
        match mark_from(ts, pos, hi, level(ts, lo, pos), mark) {
            Some(k) => top_level_mark(ts, lo, k, hi, mark) && forall|j: int|
                lo <= j < k ==> !top_level_mark(ts, lo, j, hi, mark),
            None => forall|j: int| lo <= j < hi ==> !top_level_mark(ts, lo, j, hi, mark),
        },
    decreases hi - pos,
{
    if pos < hi && !(level(ts, lo, pos) == 0 && mark_at(ts, pos, hi, mark)) {
        lemma_mark_from_level(ts, lo, pos + 1, hi, mark);
    }
}

/// What [`find_mark`] finds is the first place in `lo..hi`, outside of all
/// brackets, at which the separator starts; it finds nothing only where
/// there is no such place.
pub proof fn lemma_find_mark_is_first(ts: Seq<Tok>, lo: int, hi: int, mark: Mark)
    requires
        0 <= lo <= hi <= ts.len(),
    ensures
        match find_mark(ts, lo, hi, mark) {
            Some(k) => top_level_mark(ts, lo, k, hi, mark) && forall|j: int|
                lo <= j < k ==> !top_level_mark(ts, lo, j, hi, mark),
            None => forall|j: int| lo <= j < hi ==> !top_level_mark(ts, lo, j, hi, mark),
        },
{
    lemma_mark_from_level(ts, lo, lo, hi, mark);
}

/// A scan that has reached `pos` at the depth that [`level`] gives finds
/// the closing delimiter that a scan from `lo` finds.
proof fn lemma_close_from_level(ts: Seq<Tok>, lo: int, pos: int, hi: int)
    requires
        0 <= lo <= pos <= hi <= ts.len(),
        forall|j: int| lo <= j < pos ==> !unmatched_close(ts, lo, j, hi),
    ensures
        match close_from(ts, pos, hi, level(ts, lo, pos)) {
            Some(c) => unmatched_close(ts, lo, c, hi) && forall|j: int|
                lo <= j < c ==> !unmatched_close(ts, lo, j, hi),
            None => forall|j: int| lo <= j < hi ==> !unmatched_close(ts, lo, j, hi),
        },
    decreases hi - pos,
{
    if pos < hi && !(level(ts, lo, pos) == 0 && ts[pos] is Close) {
        lemma_close_from_level(ts, lo, pos + 1, hi);
    }
}

/// Where a group ends: at the first closing delimiter after its opening
/// one that closes no group opened in between, and only if that delimiter
/// has the shape of the opening one. `inside` is where the content starts.
pub proof fn lemma_group_end_is_first_unmatched(ts: Seq<Tok>, open: int, inside: int, hi: int)
    requires
        0 <= open < hi <= ts.len(),
        inside == open + 1,
        ts[open] is Open,
    ensures
        match group_end(ts, open, hi) {
            Some(c) => unmatched_close(ts, inside, c, hi) && ts[c] == Tok::Close(
                ts[open]->Open_0,
            ) && forall|j: int| inside <= j < c ==> !unmatched_close(ts, inside, j, hi),
            None => forall|c: int|
                unmatched_close(ts, inside, c, hi) && ts[c] == Tok::Close(ts[open]->Open_0)
                    ==> exists|j: int| inside <= j < c && unmatched_close(ts, inside, j, hi),
        },
{
    lemma_close_from_level(ts, inside, inside, hi);
}

impl Token {
    /// An independent copy of the token.
    pub fn duplicate(&self) -> (copy: Token)
        ensures
            copy@ == self@,
    {
        match self {
            Token::Ident(s) => Token::Ident(s.clone()),
            Token::Punct(c, joint) => Token::Punct(*c, *joint),
            Token::Literal(s) => Token::Literal(s.clone()),
            Token::Open(d) => Token::Open(*d),
            Token::Close(d) => Token::Close(*d),
        }
    }

    /// The identifier token that spells `word`.
    pub fn word(word: &str) -> (t: Token)
        ensures
            t@ == Tok::Ident(word@),
    {
        Token::Ident(word.to_owned())
    }

    /// Whether the token is the identifier or keyword `word`.
    pub fn is_word(&self, word: &str) -> (b: bool)
        ensures
            b == (self@ == Tok::Ident(word@)),
    {
        match self {
            Token::Ident(s) => {
                let w = word.to_owned();
                *s == w
            },
            _ => false,
        }
    }

    /// Whether the token is the punctuation character `c`.
    pub fn is_punct(&self, c: char) -> (b: bool)
        ensures
            b == (self@ is Punct && self@->Punct_0 == c),
    {
        match self {
            Token::Punct(p, _) => *p == c,
            _ => false,
        }
    }

    /// Whether the token is the punctuation character `c`, written without
    /// a gap before the punctuation that follows.
    pub fn is_joint(&self, c: char) -> (b: bool)
        ensures
            b == (self@ == Tok::Punct(c, true)),
    {
        match self {
            Token::Punct(p, joint) => *p == c && *joint,
            _ => false,
        }
    }

    /// Whether the token opens a group of shape `d`.
    pub fn opens(&self, d: Delimiter) -> (b: bool)
        ensures
            b == (self@ == Tok::Open(d)),
    {
        match self {
            Token::Open(e) => *e == d,
            _ => false,
        }
    }

    /// Whether the token closes a group of shape `d`.
    pub fn closes(&self, d: Delimiter) -> (b: bool)
        ensures
            b == (self@ == Tok::Close(d)),
    {
        match self {
            Token::Close(e) => *e == d,
            _ => false,
        }
    }
}

/// `String::push`: the character is added at the end of the string.
#[verifier::external_body]
pub(crate) fn push_char(s: &mut String, c: char)
    ensures
        final(s)@ == old(s)@.push(c),
{
    s.push(c)
}

/// Writes the tokens as source text.
pub fn render(tokens: &Vec<Token>) -> (text: String)
    ensures
        text@ == text_of(tokens.deep_view()),
{
    let ghost ts = tokens.deep_view();
    let mut text = String::new();
    let mut i: usize = 0;
    while i < tokens.len()
        invariant
            i <= tokens.len(),
            ts == tokens.deep_view(),
            text@ == text_of(ts.subrange(0, i as int)),
        decreases tokens.len() - i,
    {
        assert(ts.subrange(0, i + 1).drop_last() =~= ts.subrange(0, i as int));
        match &tokens[i] {
            Token::Ident(s) => {
                text.append(s.as_str());
                push_char(&mut text, ' ');
            },
            Token::Punct(c, joint) => {
                push_char(&mut text, *c);
                if !*joint {
                    push_char(&mut text, ' ');
                }
            },
            Token::Literal(s) => {
                text.append(s.as_str());
                push_char(&mut text, ' ');
            },
            Token::Open(d) => {
                let c = match d {
                    Delimiter::Parenthesis => '(',
                    Delimiter::Brace => '{',
                    Delimiter::Bracket => '[',
                };
                push_char(&mut text, c);
                push_char(&mut text, ' ');
            },
            Token::Close(d) => {
                let c = match d {
                    Delimiter::Parenthesis => ')',
                    Delimiter::Brace => '}',
                    Delimiter::Bracket => ']',
                };
                push_char(&mut text, c);
                push_char(&mut text, ' ');
            },
        }
        i += 1;
    }
    assert(ts.subrange(0, tokens.len() as int) =~= ts);
    text
}

/// Appends `item` to `out`.
pub(crate) fn push_deep<T: DeepView>(out: &mut Vec<T>, item: T)
    ensures
        final(out).deep_view() == old(out).deep_view().push(item.deep_view()),
{
    out.push(item);
}

/// Appends `t` to `out`.
pub fn push_token(out: &mut Vec<Token>, t: Token)
    ensures
        final(out).deep_view() == old(out).deep_view().push(t@),
{
    push_deep(out, t);
}

/// Appends a copy of `more` to `out`.
pub fn push_tokens(out: &mut Vec<Token>, more: &Vec<Token>)
    ensures
        final(out).deep_view() == old(out).deep_view() + more.deep_view(),
{
    let ghost before = out.deep_view();
    let mut i: usize = 0;
    while i < more.len()
        invariant
            i <= more.len(),
            out.deep_view() == before + more.deep_view().subrange(0, i as int),
        decreases more.len() - i,
    {
        let t = more[i].duplicate();
        push_token(out, t);
        i += 1;
    }
}

/// Copies the tokens at positions `lo..hi`.
pub(crate) fn copy_range(tokens: &Vec<Token>, lo: usize, hi: usize) -> (copy: Vec<Token>)
    requires
        lo <= hi <= tokens.len(),
    ensures
        copy.deep_view() == tokens.deep_view().subrange(lo as int, hi as int),
{
    let mut copy: Vec<Token> = Vec::new();
    let mut i: usize = lo;
    while i < hi
        invariant
            lo <= i <= hi <= tokens.len(),
            copy.deep_view() == tokens.deep_view().subrange(lo as int, i as int),
        decreases hi - i,
    {
        let t = tokens[i].duplicate();
        push_token(&mut copy, t);
        i += 1;
    }
    copy
}

/// Copies the tokens.
pub fn copy_tokens(tokens: &Vec<Token>) -> (copy: Vec<Token>)
    ensures
        copy.deep_view() == tokens.deep_view(),
{
    copy_range(tokens, 0, tokens.len())
}

/// Copies the tokens, if there are any.
pub fn copy_optional(tokens: &Option<Vec<Token>>) -> (copy: Option<Vec<Token>>)
    ensures
        copy.deep_view() == tokens.deep_view(),
{
    match tokens {
        Some(t) => Some(copy_tokens(t)),
        None => None,
    }
}

/// Whether `=>` starts at `pos`.
pub fn has_arrow(tokens: &Vec<Token>, pos: usize, hi: usize) -> (b: bool)
    ensures
        b == arrow_at(tokens.deep_view(), pos as int, hi as int),
{
    hi <= tokens.len() && pos < hi && hi - pos > 1 && tokens[pos].is_joint('=') && tokens[pos
        + 1].is_punct('>')
}

/// Whether `::` starts at `pos`.
pub fn has_colons(tokens: &Vec<Token>, pos: usize, hi: usize) -> (b: bool)
    ensures
        b == colons_at(tokens.deep_view(), pos as int, hi as int),
{
    hi <= tokens.len() && pos < hi && hi - pos > 1 && tokens[pos].is_joint(':') && tokens[pos
        + 1].is_punct(':')
}

/// Whether the token at `pos` is the punctuation character `c`.
pub fn has_punct(tokens: &Vec<Token>, pos: usize, hi: usize, c: char) -> (b: bool)
    ensures
        b == punct_at(tokens.deep_view(), pos as int, hi as int, c),
{
    hi <= tokens.len() && pos < hi && tokens[pos].is_punct(c)
}

/// Whether the token at `pos` is the word `word`.
pub fn has_word(tokens: &Vec<Token>, pos: usize, hi: usize, word: &str) -> (b: bool)
    ensures
        b == word_at(tokens.deep_view(), pos as int, hi as int, word@),
{
    hi <= tokens.len() && pos < hi && tokens[pos].is_word(word)
}

/// Whether the token at `pos` opens a group of shape `d`.
pub fn has_open(tokens: &Vec<Token>, pos: usize, hi: usize, d: Delimiter) -> (b: bool)
    ensures
        b == open_at(tokens.deep_view(), pos as int, hi as int, d),
{
    hi <= tokens.len() && pos < hi && tokens[pos].opens(d)
}

/// Whether the separator `mark` starts at `pos`.
pub fn has_mark(tokens: &Vec<Token>, pos: usize, hi: usize, mark: Mark) -> (b: bool)
    ensures
        b == mark_at(tokens.deep_view(), pos as int, hi as int, mark),
{
    match mark {
        Mark::Arrow => has_arrow(tokens, pos, hi),
        Mark::Comma => has_punct(tokens, pos, hi, ','),
        Mark::If => has_word(tokens, pos, hi, "if"),
    }
}

/// Finds the closing delimiter of the group that opens at `open`, looking no
/// further than `hi`.
pub fn find_close(tokens: &Vec<Token>, open: usize, hi: usize) -> (end: Option<usize>)
    ensures
        found_at(end) == group_end(tokens.deep_view(), open as int, hi as int),
        end matches Some(c) ==> open < c < hi,
{
    let ghost ts = tokens.deep_view();
    if hi > tokens.len() || open >= hi {
        return None;
    }
    let shape = match &tokens[open] {
        Token::Open(d) => *d,
        _ => { return None; },
    };
    let mut i: usize = open + 1;
    let mut depth: usize = 0;
    while i < hi
        invariant
            open < i <= hi <= tokens.len(),
            ts == tokens.deep_view(),
            depth <= i - open,
            ts[open as int] == Tok::Open(shape),
            close_from(ts, open + 1, hi as int, 0) == close_from(
                ts,
                i as int,
                hi as int,
                depth as nat,
            ),
        decreases hi - i,
    {
        match &tokens[i] {
            Token::Open(_) => {
                depth += 1;
            },
            Token::Close(d) => {
                if depth == 0 {
                    if *d == shape {
                        return Some(i);
                    } else {
                        return None;
                    }
                }
                depth -= 1;
            },
            _ => {},
        }
        i += 1;
    }
    None
}

/// Finds the first top-level occurrence of `mark` in `lo..hi`.
pub fn find_top(tokens: &Vec<Token>, lo: usize, hi: usize, mark: Mark) -> (found: Option<usize>)
    ensures
        found_at(found) == find_mark(tokens.deep_view(), lo as int, hi as int, mark),
        found matches Some(k) ==> lo <= k < hi && mark_at(
            tokens.deep_view(),
            k as int,
            hi as int,
            mark,
        ),
{
    let ghost ts = tokens.deep_view();
    if hi > tokens.len() {
        return None;
    }
    let mut i: usize = lo;
    let mut depth: usize = 0;
    while i < hi
        invariant
            lo <= i,
            hi <= tokens.len(),
            ts == tokens.deep_view(),
            depth <= i - lo,
            mark_from(ts, lo as int, hi as int, 0, mark) == mark_from(
                ts,
                i as int,
                hi as int,
                depth as nat,
                mark,
            ),
        decreases hi - i,
    {
        if depth == 0 && has_mark(tokens, i, hi, mark) {
            return Some(i);
        }
        match &tokens[i] {
            Token::Open(_) => {
                depth += 1;
            },
            Token::Close(_) => {
                if depth > 0 {
                    depth -= 1;
                }
            },
            _ => {},
        }
        i += 1;
    }
    None
}

/// Finds the `>` that closes the angle bracket at `open`, looking no further
/// than `hi`.
pub fn find_angle(tokens: &Vec<Token>, open: usize, hi: usize) -> (end: Option<usize>)
    ensures
        found_at(end) == angle_end(tokens.deep_view(), open as int, hi as int),
        end matches Some(c) ==> open < c < hi,
{
    let ghost ts = tokens.deep_view();
    if !has_punct(tokens, open, hi, '<') {
        return None;
    }
    let mut i: usize = open + 1;
    let mut depth: usize = 0;
    let mut angles: usize = 1;
    while i < hi
        invariant
            open < i <= hi <= tokens.len(),
            ts == tokens.deep_view(),
            depth + angles <= i - open,
            angles >= 1,
            punct_at(ts, open as int, hi as int, '<'),
            angle_from(ts, open + 1, hi as int, 0, 1) == angle_from(
                ts,
                i as int,
                hi as int,
                depth as nat,
                angles as nat,
            ),
        decreases hi - i,
    {
        match &tokens[i] {
            Token::Open(_) => {
                depth += 1;
            },
            Token::Close(_) => {
                if depth == 0 {
                    return None;
                }
                depth -= 1;
            },
            Token::Punct(c, _) => {
                if depth == 0 && *c == '<' {
                    angles += 1;
                } else if depth == 0 && *c == '>' && !tokens[i - 1].is_joint('-') && !tokens[i
                    - 1].is_joint('=') {
                    if angles == 1 {
                        return Some(i);
                    }
                    angles -= 1;
                }
            },
            _ => {},
        }
        i += 1;
    }
    None
}

} // verus!
