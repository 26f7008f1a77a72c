use rust_fsm_dsl::diagram::escape_into;
use rust_fsm_dsl::error::{judge, CompileError, ErrorKind};
use rust_fsm_dsl::emit::{
    emit_arms, emit_enum, emit_function, emit_rejection_arm, emit_return_type, separate,
};
use rust_fsm_dsl::order::{rank, Rank};
use rust_fsm_dsl::machine::{
    build_def_rows, build_rows, collect_inputs, collect_outputs, collect_states, compose_guards, resolve_target,
    Machine, Rejected, Row,
};
use rust_fsm_dsl::parser::{
    Header, ImplementationRequired, Output, StateMachineDef, TransitionDef, TransitionEntry,
};
use rust_fsm_dsl::syntax::{
    valid_attributes, valid_expression, valid_generics, valid_identifier, valid_path,
    valid_pattern, valid_type, valid_visibility,
};
use rust_fsm_dsl::token::{
    copy_tokens, find_angle, find_close, find_top, has_arrow, has_colons, render, Delimiter, Mark,
    Token,
};
use rust_fsm_dsl::variant::{alphabet, find_type, tokenize, Final, Member, Variant};
use rust_fsm_dsl::{compile, state_machine};

fn flatten(stream: proc_macro2::TokenStream, out: &mut Vec<Token>) {
    for tree in stream {
        match tree {
            proc_macro2::TokenTree::Group(group) => {
                let shape = match group.delimiter() {
                    proc_macro2::Delimiter::Parenthesis => Some(Delimiter::Parenthesis),
                    proc_macro2::Delimiter::Brace => Some(Delimiter::Brace),
                    proc_macro2::Delimiter::Bracket => Some(Delimiter::Bracket),
                    proc_macro2::Delimiter::None => None,
                };
                if let Some(d) = shape {
                    out.push(Token::Open(d));
                }
                flatten(group.stream(), out);
                if let Some(d) = shape {
                    out.push(Token::Close(d));
                }
            }
            proc_macro2::TokenTree::Ident(ident) => out.push(Token::Ident(ident.to_string())),
            proc_macro2::TokenTree::Punct(punct) => out.push(Token::Punct(
                punct.as_char(),
                punct.spacing() == proc_macro2::Spacing::Joint,
            )),
            proc_macro2::TokenTree::Literal(literal) => {
                out.push(Token::Literal(literal.to_string()))
            }
        }
    }
}

fn lex(source: &str) -> Vec<Token> {
    let stream: proc_macro2::TokenStream = source.parse().unwrap();
    let mut out = Vec::new();
    flatten(stream, &mut out);
    out
}

fn text(word: &str) -> String {
    word.to_string()
}

fn plain(name: &str) -> Variant {
    Variant { ident: text(name), span: 0, field: None }
}

fn with_data(name: &str, ty: Option<&str>, pattern: &str, guard: Option<&str>) -> Variant {
    Variant {
        ident: text(name),
        span: 0,
        field: Some((ty.map(lex), lex(pattern), guard.map(lex))),
    }
}

fn kind_of<T>(result: Result<T, CompileError>) -> (ErrorKind, usize) {
    match result {
        Ok(_) => panic!("a diagnostic was expected"),
        Err(e) => (e.kind, e.position),
    }
}

fn step(machine: &Machine, state: &str, input: &str) -> Result<(String, Option<String>), Rejected> {
    machine.transition(text(state), text(input), &vec![])
}

const DOOR: &str = "
    pub Door => DoorInput => DoorOutput

    Open => Key => Closed,
    Closed => Key => Open,
    Open => Break => Broken,
    Closed => Break => Broken
";

const CIRCUIT_BREAKER: &str = "
    /// A dummy implementation of the Circuit Breaker pattern.
    pub CircuitBreaker => Result => Action

    Closed => Unsuccessful => Open [SetupTimer],
    Open => TimerTriggered => HalfOpen,
    HalfOpen => {
        Successful => Closed,
        Unsuccessful => Open [SetupTimer]
    }
";

fn idents(members: &Vec<Member>) -> Vec<String> {
    members.iter().map(|m| m.ident.clone()).collect()
}

// ---------------------------------------------------------------- tokens

#[test]
fn render_writes_a_space_after_each_token_but_joint_punctuation() {
    let tokens = vec![
        Token::Ident(text("Open")),
        Token::Punct('=', true),
        Token::Punct('>', false),
        Token::Open(Delimiter::Bracket),
        Token::Literal(text("\"x\"")),
        Token::Close(Delimiter::Bracket),
    ];
    assert_eq!(render(&tokens), "Open => [ \"x\" ] ");
}

#[test]
fn render_of_nothing_is_empty() {
    assert_eq!(render(&Vec::new()), "");
}

#[test]
fn render_writes_all_three_delimiters() {
    assert_eq!(render(&lex("( ) { } [ ]")), "( ) { } [ ] ");
}

#[test]
fn rendered_text_lexes_back_to_the_same_tokens() {
    let tokens = lex("A(&'a str => x if x.len() >= 2 && *x != \"a\") => B(1 + 2) [C(u8 => 'c')]");
    assert_eq!(lex(&render(&tokens)), tokens);
}

#[test]
fn copy_tokens_copies_every_token() {
    let tokens = lex("Open => Key => Closed [Bell]");
    assert_eq!(copy_tokens(&tokens), tokens);
}

#[test]
fn find_close_matches_nested_groups() {
    // 0:A 1:( 2:[ 3:x 4:] 5:( 6:) 7:) 8:B
    let tokens = lex("A([x]()) B");
    assert_eq!(find_close(&tokens, 1, tokens.len()), Some(7));
    assert_eq!(find_close(&tokens, 2, tokens.len()), Some(4));
    assert_eq!(find_close(&tokens, 5, tokens.len()), Some(6));
}

#[test]
fn find_close_needs_an_opening_delimiter() {
    let tokens = lex("A (x)");
    assert_eq!(find_close(&tokens, 0, tokens.len()), None);
    assert_eq!(find_close(&tokens, 9, tokens.len()), None);
}

#[test]
fn find_close_fails_on_a_missing_or_wrong_closer() {
    let open = vec![Token::Open(Delimiter::Parenthesis), Token::Ident(text("x"))];
    assert_eq!(find_close(&open, 0, 2), None);
    let wrong = vec![
        Token::Open(Delimiter::Parenthesis),
        Token::Ident(text("x")),
        Token::Close(Delimiter::Bracket),
    ];
    assert_eq!(find_close(&wrong, 0, 3), None);
}

#[test]
fn find_close_looks_no_further_than_the_bound() {
    let tokens = lex("(a b)");
    assert_eq!(find_close(&tokens, 0, 4), Some(3));
    assert_eq!(find_close(&tokens, 0, 3), None);
    assert_eq!(find_close(&tokens, 0, 99), None);
}

#[test]
fn find_top_skips_what_stands_in_brackets() {
    // 0:a 1:( 2:b 3:, 4:c 5:) 6:, 7:d
    let tokens = lex("a(b, c), d");
    assert_eq!(find_top(&tokens, 0, tokens.len(), Mark::Comma), Some(6));
    assert_eq!(find_top(&tokens, 7, tokens.len(), Mark::Comma), None);
    assert_eq!(find_top(&tokens, 2, 5, Mark::Comma), Some(3));
}

#[test]
fn find_top_finds_arrows_and_the_keyword_if() {
    // 0:u32 1:= 2:> 3:x 4:if 5:x 6:> 7:1
    let tokens = lex("u32 => x if x > 1");
    assert_eq!(find_top(&tokens, 0, tokens.len(), Mark::Arrow), Some(1));
    assert_eq!(find_top(&tokens, 0, tokens.len(), Mark::If), Some(4));
    assert_eq!(find_top(&tokens, 2, tokens.len(), Mark::Arrow), None);
}

#[test]
fn an_arrow_is_an_equals_sign_joined_to_a_greater_sign() {
    let joined = lex("=> x");
    assert!(has_arrow(&joined, 0, joined.len()));
    let apart = lex("= > x");
    assert!(!has_arrow(&apart, 0, apart.len()));
    assert!(!has_arrow(&joined, 0, 1));
    assert!(!has_arrow(&joined, 1, joined.len()));
}

#[test]
fn double_colons_are_two_joined_colons() {
    let tokens = lex(":: a : : b");
    assert!(has_colons(&tokens, 0, tokens.len()));
    assert!(!has_colons(&tokens, 3, tokens.len()));
}

#[test]
fn find_angle_matches_nested_angle_brackets() {
    // 0:N 1:< 2:T 3:: 4:Into 5:< 6:u8 7:> 8:> 9:=
    let tokens = lex("N<T: Into<u8> > =>");
    assert_eq!(find_angle(&tokens, 1, tokens.len()), Some(8));
    assert_eq!(find_angle(&tokens, 5, tokens.len()), Some(7));
    assert_eq!(find_angle(&tokens, 0, tokens.len()), None);
}

#[test]
fn find_angle_passes_over_thin_arrows_and_groups() {
    // 0:N 1:< 2:F 3:: 4:Fn 5:( 6:[ 7:u8 8:; 9:2 10:] 11:) 12:- 13:> 14:u8 15:>
    let tokens = lex("N<F: Fn([u8; 2]) -> u8>");
    assert_eq!(find_angle(&tokens, 1, tokens.len()), Some(15));
}

#[test]
fn find_angle_fails_when_the_bracket_stays_open() {
    let tokens = lex("N<T =>");
    assert_eq!(find_angle(&tokens, 1, tokens.len()), None);
}

// ---------------------------------------------------------------- syntax

#[test]
fn identifiers_are_names_but_not_keywords() {
    assert!(valid_identifier(&text("Open")));
    assert!(valid_identifier(&text("half_open2")));
    assert!(!valid_identifier(&text("if")));
    assert!(!valid_identifier(&text("_")));
    assert!(!valid_identifier(&text("Self")));
    assert!(!valid_identifier(&text("a b")));
    assert!(!valid_identifier(&text("")));
}

#[test]
fn types_are_checked_by_rust_grammar() {
    assert!(valid_type(&lex("u32")));
    assert!(valid_type(&lex("Vec<(u8, &'static str)>")));
    assert!(!valid_type(&lex("5")));
    assert!(!valid_type(&lex("u32 u32")));
    assert!(!valid_type(&lex("")));
}

#[test]
fn patterns_are_checked_by_rust_grammar() {
    assert!(valid_pattern(&lex("x")));
    assert!(valid_pattern(&lex("_")));
    assert!(valid_pattern(&lex("5")));
    assert!(valid_pattern(&lex("1 | 2")));
    assert!(valid_pattern(&lex("Some((a, b))")));
    assert!(!valid_pattern(&lex("x +")));
    assert!(!valid_pattern(&lex("")));
}

#[test]
fn expressions_are_checked_by_rust_grammar() {
    assert!(valid_expression(&lex("x > 1 && y")));
    assert!(valid_expression(&lex("5")));
    assert!(!valid_expression(&lex("x >")));
    assert!(!valid_expression(&lex("")));
}

#[test]
fn generics_are_checked_by_rust_grammar() {
    assert!(valid_generics(&lex("<T>")));
    assert!(valid_generics(&lex("<'a, T: Clone, const N: usize>")));
    assert!(!valid_generics(&lex("<T")));
    assert!(!valid_generics(&lex("<5>")));
}

#[test]
fn paths_are_checked_by_rust_grammar() {
    assert!(valid_path(&lex("crate::State")));
    assert!(valid_path(&lex("State")));
    assert!(!valid_path(&lex("crate::")));
    assert!(!valid_path(&lex("5")));
}

#[test]
fn visibilities_are_checked_by_rust_grammar() {
    assert!(valid_visibility(&lex("")));
    assert!(valid_visibility(&lex("pub")));
    assert!(valid_visibility(&lex("pub(crate)")));
    assert!(valid_visibility(&lex("pub(in crate::a)")));
    assert!(!valid_visibility(&lex("pub(in 5)")));
    assert!(!valid_visibility(&lex("private")));
}

#[test]
fn attributes_are_checked_by_rust_grammar() {
    assert!(valid_attributes(&lex("")));
    assert!(valid_attributes(&lex("#[derive(Debug)] #[repr(C)]")));
    assert!(valid_attributes(&lex("/// text")));
    assert!(!valid_attributes(&lex("#[5]")));
    assert!(!valid_attributes(&lex("derive(Debug)")));
}

// ---------------------------------------------------------------- variants

#[test]
fn a_bare_identifier_is_a_variant_without_data() {
    let tokens = lex("Open => Key");
    let (variant, next) = Variant::read(&tokens, 0, tokens.len()).unwrap();
    assert_eq!(variant.ident, "Open");
    assert_eq!(variant.span, 0);
    assert!(variant.field.is_none());
    assert_eq!(next, 1);
}

#[test]
fn a_clause_holds_type_pattern_and_guard() {
    // 0:Open 1:( 2:u32 3:= 4:> 5:x 6:if 7:x 8:> 9:3 10:) 11:= 12:>
    let tokens = lex("Open(u32 => x if x > 3) =>");
    let (variant, next) = Variant::read(&tokens, 0, tokens.len()).unwrap();
    assert_eq!(next, 11);
    let (ty, pattern, guard) = variant.field.unwrap();
    assert_eq!(ty, Some(lex("u32")));
    assert_eq!(pattern, lex("x"));
    assert_eq!(guard, Some(lex("x > 3")));
}

#[test]
fn a_clause_may_hold_a_pattern_alone() {
    let tokens = lex("Open(x)");
    let (variant, _) = Variant::read(&tokens, 0, tokens.len()).unwrap();
    assert_eq!(variant.field, Some((None, lex("x"), None)));
}

#[test]
fn a_clause_may_start_with_the_arrow() {
    let tokens = lex("Open(=> x if x)");
    let (variant, _) = Variant::read(&tokens, 0, tokens.len()).unwrap();
    assert_eq!(variant.field, Some((None, lex("x"), Some(lex("x")))));
}

#[test]
fn an_arrow_inside_the_guard_is_not_the_type_separator() {
    let tokens = lex("Open(x if match x { 1 => true, _ => false })");
    let (variant, _) = Variant::read(&tokens, 0, tokens.len()).unwrap();
    let (ty, pattern, guard) = variant.field.unwrap();
    assert_eq!(ty, None);
    assert_eq!(pattern, lex("x"));
    assert_eq!(guard, Some(lex("match x { 1 => true, _ => false }")));
}

#[test]
fn the_span_of_a_variant_is_the_index_of_its_identifier() {
    let tokens = lex("A => B(x) => C");
    let (variant, next) = Variant::read(&tokens, 3, tokens.len()).unwrap();
    assert_eq!(variant.ident, "B");
    assert_eq!(variant.span, 3);
    assert_eq!(next, 7);
}

#[test]
fn a_variant_needs_an_identifier() {
    let tokens = lex("=> Open");
    assert_eq!(kind_of(Variant::read(&tokens, 0, tokens.len())), (ErrorKind::ExpectedIdent, 0));
    assert_eq!(kind_of(Variant::read(&tokens, 3, tokens.len())), (ErrorKind::ExpectedIdent, 3));
    assert_eq!(kind_of(Variant::read(&tokens, 2, 99)), (ErrorKind::ExpectedIdent, 2));
}

#[test]
fn an_unclosed_clause_is_reported_at_its_parenthesis() {
    let tokens = vec![
        Token::Ident(text("Open")),
        Token::Open(Delimiter::Parenthesis),
        Token::Ident(text("x")),
    ];
    assert_eq!(kind_of(Variant::read(&tokens, 0, 3)), (ErrorKind::Unterminated, 1));
}

#[test]
fn a_clause_without_a_pattern_is_malformed() {
    let malformed = (ErrorKind::MalformedData, 0);
    for source in ["X()", "X(u8 =>)", "X(=>)", "X(if x)", "X(u8 => if x)"] {
        let tokens = lex(source);
        assert_eq!(kind_of(Variant::read(&tokens, 0, tokens.len())), malformed, "{}", source);
        assert_eq!(kind_of(Variant::parse(&tokens, 0, tokens.len())), malformed, "{}", source);
    }
    let tokens = lex("A => X() => B");
    assert_eq!(kind_of(Variant::parse(&tokens, 3, tokens.len())), (ErrorKind::MalformedData, 3));
}

#[test]
fn a_clause_without_its_guard_is_malformed() {
    let tokens = lex("X(x if)");
    assert_eq!(kind_of(Variant::read(&tokens, 0, tokens.len())), (ErrorKind::MalformedData, 0));
    assert_eq!(kind_of(Variant::parse(&tokens, 0, tokens.len())), (ErrorKind::MalformedData, 0));
}

#[test]
fn a_target_clause_without_an_expression_is_malformed() {
    for source in ["B()", "B(u8 =>)", "B(=>)"] {
        let tokens = lex(source);
        assert_eq!(
            kind_of(Final::read(&tokens, 0, tokens.len())),
            (ErrorKind::MalformedData, 0),
            "{}",
            source
        );
        assert_eq!(
            kind_of(Final::parse(&tokens, 0, tokens.len())),
            (ErrorKind::MalformedData, 0),
            "{}",
            source
        );
    }
}

#[test]
fn parse_checks_the_fragments_of_a_variant() {
    let tokens = lex("Open(u32 => x if x > 3) =>");
    let (variant, next) = Variant::parse(&tokens, 0, tokens.len()).unwrap();
    assert_eq!(next, 11);
    assert_eq!(variant.field, Some((Some(lex("u32")), lex("x"), Some(lex("x > 3")))));
    for source in ["Open(5 5 => x)", "Open(x +)", "Open(x if +)"] {
        let tokens = lex(source);
        assert!(Variant::read(&tokens, 0, tokens.len()).is_ok(), "{}", source);
        assert_eq!(
            kind_of(Variant::parse(&tokens, 0, tokens.len())),
            (ErrorKind::MalformedData, 0),
            "{}",
            source
        );
    }
    let keyword = lex("match");
    assert!(Variant::read(&keyword, 0, 1).is_ok());
    assert_eq!(kind_of(Variant::parse(&keyword, 0, 1)), (ErrorKind::ExpectedIdent, 0));
    let unclosed = lex("Open(x)")[..3].to_vec();
    assert_eq!(kind_of(Variant::parse(&unclosed, 0, 3)), (ErrorKind::Unterminated, 1));
}

#[test]
fn parse_checks_the_fragments_of_a_target() {
    let tokens = lex("Fine(u32 => 5 + 1)");
    let (target, next) = Final::parse(&tokens, 0, tokens.len()).unwrap();
    assert_eq!(next, tokens.len());
    assert_eq!(target.0.unwrap().ident, "Fine");
    let stay = lex("_");
    assert!(Final::parse(&stay, 0, 1).unwrap().0 .0.is_none());
    for source in ["Fine(5 5 => 1)", "Fine(+)"] {
        let tokens = lex(source);
        assert!(Final::read(&tokens, 0, tokens.len()).is_ok(), "{}", source);
        assert_eq!(
            kind_of(Final::parse(&tokens, 0, tokens.len())),
            (ErrorKind::MalformedData, 0),
            "{}",
            source
        );
    }
    let keyword = lex("fn");
    assert_eq!(kind_of(Final::parse(&keyword, 0, 1)), (ErrorKind::ExpectedIdent, 0));
}

#[test]
fn parse_checks_the_fragments_of_outputs_entries_and_transitions() {
    let tokens = lex("[Out(5 5 => 1)]");
    assert!(Output::read(&tokens, 0, tokens.len()).is_ok());
    assert_eq!(kind_of(Output::parse(&tokens, 0, tokens.len())), (ErrorKind::MalformedData, 1));
    let tokens = lex("[Out(u8 => 1)] ,");
    assert_eq!(Output::parse(&tokens, 0, tokens.len()).unwrap().1, 9);
    assert_eq!(Output::parse(&tokens, 9, tokens.len()).unwrap().1, 9);

    let tokens = lex("A => B(=> +) [C]");
    assert!(TransitionEntry::read(&tokens, 0, tokens.len()).is_ok());
    assert_eq!(
        kind_of(TransitionEntry::parse(&tokens, 0, tokens.len())),
        (ErrorKind::MalformedData, 3)
    );
    let tokens = lex("A => B [C]");
    assert_eq!(TransitionEntry::parse(&tokens, 0, tokens.len()).unwrap().1, tokens.len());
    let tokens = lex("A B");
    assert_eq!(
        kind_of(TransitionEntry::parse(&tokens, 0, tokens.len())),
        (ErrorKind::MissingArrow, 1)
    );

    let tokens = lex("S => { A => B, X(x +) => Y }");
    assert!(TransitionDef::read(&tokens, 0, tokens.len()).is_ok());
    assert_eq!(
        kind_of(TransitionDef::parse(&tokens, 0, tokens.len())),
        (ErrorKind::MalformedData, 9)
    );
    let tokens = lex("S => { A => B, X(x) => Y }");
    let (def, next) = TransitionDef::parse(&tokens, 0, tokens.len()).unwrap();
    assert_eq!(next, tokens.len());
    assert_eq!(def.transitions.len(), 2);
    let tokens = lex("S => { }");
    assert_eq!(kind_of(TransitionDef::parse(&tokens, 0, tokens.len())), (ErrorKind::EmptyBlock, 0));
}

#[test]
fn parse_checks_the_names_of_a_header() {
    let tokens = lex("pub Machine<T> => ::crate::Input => Output A");
    let (header, next) = Header::parse(&tokens, 1, tokens.len()).unwrap();
    assert_eq!(next, tokens.len() - 1);
    assert!(matches!(header.output_name, ImplementationRequired::Yes(ref n, _) if n == "Output"));
    assert_eq!(header.check(1), Ok(()));
    let tokens = lex("pub Machine<5> => Input => Output");
    assert!(Header::read(&tokens, 1, tokens.len()).is_ok());
    assert_eq!(kind_of(Header::parse(&tokens, 1, tokens.len())), (ErrorKind::MalformedHeader, 1));
    let tokens = lex("Machine => fn => Output");
    assert_eq!(kind_of(Header::parse(&tokens, 0, tokens.len())), (ErrorKind::ExpectedIdent, 0));
    let tokens = lex("mod(Open)");
    assert_eq!(kind_of(Header::parse(&tokens, 0, tokens.len())), (ErrorKind::ExpectedIdent, 0));
    let tokens = lex("door(loop)");
    assert_eq!(kind_of(Header::parse(&tokens, 0, tokens.len())), (ErrorKind::ExpectedIdent, 0));
    let tokens = lex("Machine Input");
    assert_eq!(kind_of(Header::parse(&tokens, 0, tokens.len())), (ErrorKind::MissingArrow, 1));
}

#[test]
fn parse_checks_every_fragment_of_a_description() {
    let def = StateMachineDef::parse(&lex(CIRCUIT_BREAKER)).unwrap();
    assert_eq!(def.transitions.len(), 3);
    let source = "M => I => O A => B => C, D => { E => F, G(5 5 => x) => H }";
    assert!(StateMachineDef::read(&lex(source)).is_ok());
    assert_eq!(kind_of(StateMachineDef::parse(&lex(source))), (ErrorKind::MalformedData, 24));
    assert_eq!(
        kind_of(StateMachineDef::parse(&lex("M => I => O A => B => C, D => E"))),
        (ErrorKind::MissingArrow, 19)
    );
    // What is wrong with the shape is reported first.
    assert_eq!(
        kind_of(StateMachineDef::parse(&lex("M => I => O fn => X => B Y"))),
        (ErrorKind::UnexpectedToken, 14)
    );
    assert_eq!(
        kind_of(StateMachineDef::parse(&lex("#[5] M => I => O A => X => B"))),
        (ErrorKind::MalformedHeader, 0)
    );
}

#[test]
fn an_underscore_is_the_stay_target() {
    let tokens = lex("_ [Bell]");
    let (target, next) = Final::read(&tokens, 0, tokens.len()).unwrap();
    assert!(target.0.is_none());
    assert_eq!(next, 1);
}

#[test]
fn a_target_clause_holds_type_and_expression() {
    let tokens = lex("Fine(u32 => 5 + 1)");
    let (target, next) = Final::read(&tokens, 0, tokens.len()).unwrap();
    assert_eq!(next, tokens.len());
    let variant = target.variant().unwrap();
    assert_eq!(variant.ident, "Fine");
    assert_eq!(variant.field, Some((Some(lex("u32")), lex("_"), Some(lex("5 + 1")))));
}

#[test]
fn a_target_clause_may_hold_an_expression_alone() {
    let tokens = lex("Fine(x + 1)");
    let (target, _) = Final::read(&tokens, 0, tokens.len()).unwrap();
    assert_eq!(target.0.unwrap().field, Some((None, lex("_"), Some(lex("x + 1")))));
}

#[test]
fn match_on_shows_pattern_and_guard() {
    assert_eq!(plain("Open").match_on(), lex("Open"));
    assert_eq!(with_data("Open", Some("u32"), "x", None).match_on(), lex("Open(x)"));
    assert_eq!(
        with_data("Open", None, "x", Some("x > 1")).match_on(),
        lex("Open(x) if x > 1")
    );
}

#[test]
fn separate_keeps_the_guard_apart() {
    assert_eq!(plain("Open").separate(), (lex("Open"), None));
    assert_eq!(
        with_data("Open", Some("u32"), "x", Some("x > 1")).separate(),
        (lex("Open(x)"), Some(lex("x > 1")))
    );
    assert_eq!(with_data("Open", None, "(a, b)", None).separate(), (lex("Open((a, b))"), None));
}

#[test]
fn reduce_builds_the_target_value() {
    assert_eq!(Final(None).reduce(), None);
    assert_eq!(Final(Some(plain("Closed"))).reduce(), Some(lex("Closed")));
    assert_eq!(
        Final(Some(with_data("Fine", Some("u32"), "_", Some("5")))).reduce(),
        Some(lex("Fine(5)"))
    );
    assert_eq!(Final(Some(with_data("Fine", None, "_", None))).reduce(), Some(lex("Fine()")));
}

#[test]
fn variant_of_a_target_is_what_it_names() {
    assert!(Final(None).variant().is_none());
    assert_eq!(Final(Some(plain("Closed"))).variant().unwrap().ident, "Closed");
}

#[test]
fn variants_are_equal_when_their_identifiers_are() {
    assert!(plain("Open") == with_data("Open", Some("u32"), "x", Some("x > 1")));
    assert!(plain("Open") != plain("Closed"));
    assert!(Final(Some(plain("Open"))) == Final(Some(with_data("Open", None, "_", Some("1")))));
    assert!(Final(None) == Final(None));
    assert!(Final(None) != Final(Some(plain("Open"))));
}

#[test]
fn identifiers_are_ranked_character_by_character() {
    assert_eq!(rank("Closed", "Open"), Rank::Before);
    assert_eq!(rank("Open", "Closed"), Rank::After);
    assert_eq!(rank("Open", "Open"), Rank::Same);
    assert_eq!(rank("Open", "Opened"), Rank::Before);
    assert_eq!(rank("Opened", "Open"), Rank::After);
    assert_eq!(rank("", ""), Rank::Same);
    assert_eq!(rank("", "a"), Rank::Before);
    assert_eq!(rank("Z", "a"), Rank::Before);
    assert_eq!(rank("z", "Ω"), Rank::Before);
    for (a, b) in [("Closed", "Open"), ("Open", "Opened"), ("z", "Ω"), ("a", "a"), ("b", "")] {
        let expected = match a.cmp(b) {
            std::cmp::Ordering::Less => Rank::Before,
            std::cmp::Ordering::Equal => Rank::Same,
            std::cmp::Ordering::Greater => Rank::After,
        };
        assert_eq!(rank(a, b), expected);
    }
}

#[test]
fn variants_are_ordered_by_their_identifiers() {
    let open = with_data("Open", Some("u32"), "x", None);
    assert_eq!(plain("Closed").partial_cmp(&open), Some(std::cmp::Ordering::Less));
    assert_eq!(open.partial_cmp(&plain("Closed")), Some(std::cmp::Ordering::Greater));
    assert_eq!(open.partial_cmp(&plain("Open")), Some(std::cmp::Ordering::Equal));
    assert!(plain("Broken") < plain("Closed"));
    assert!(plain("Open") >= open);
    let mut states = vec![plain("Open"), plain("Closed"), plain("Broken")];
    states.sort_by(|a, b| a.partial_cmp(b).unwrap());
    assert_eq!(
        states.into_iter().map(|v| v.ident).collect::<Vec<_>>(),
        vec!["Broken", "Closed", "Open"]
    );
}

#[test]
fn labels_are_identifiers_or_the_underscore() {
    assert_eq!(with_data("Open", Some("u32"), "x", None).label(), "Open");
    assert_eq!(Final(Some(plain("Closed"))).label(), "Closed");
    assert_eq!(Final(None).label(), "_");
}

#[test]
fn duplicate_copies_every_part() {
    let variant = with_data("Open", Some("u32"), "x", Some("x > 1"));
    let copy = variant.duplicate();
    assert_eq!(copy.ident, variant.ident);
    assert_eq!(copy.span, variant.span);
    assert_eq!(copy.field, variant.field);
}

#[test]
fn a_verdict_names_the_first_fault() {
    assert_eq!(judge(3, true, true, ErrorKind::MalformedData), Ok(()));
    assert_eq!(
        judge(3, false, true, ErrorKind::MalformedData),
        Err(CompileError { kind: ErrorKind::ExpectedIdent, position: 3 })
    );
    assert_eq!(
        judge(3, false, false, ErrorKind::MalformedData),
        Err(CompileError { kind: ErrorKind::ExpectedIdent, position: 3 })
    );
    assert_eq!(
        judge(4, true, false, ErrorKind::MalformedHeader),
        Err(CompileError { kind: ErrorKind::MalformedHeader, position: 4 })
    );
}

#[test]
fn raw_and_unicode_identifiers_are_names() {
    let machine = compile(&lex("M => I => O r#type => Größe => r#type [Ωmega]")).unwrap();
    assert_eq!(idents(&machine.states), vec!["r#type"]);
    assert_eq!(idents(&machine.inputs), vec!["Größe"]);
    assert_eq!(idents(&machine.outputs), vec!["Ωmega"]);
    assert_eq!(step(&machine, "r#type", "Größe"), Ok((text("r#type"), Some(text("Ωmega")))));
    let code = render(&machine.emit());
    assert!(syn::parse_str::<syn::File>(&code).is_ok(), "{}", code);
}

#[test]
fn check_accepts_well_formed_variants() {
    assert_eq!(plain("Open").check(), Ok(()));
    assert_eq!(with_data("Open", Some("u32"), "x", Some("x > 1")).check(), Ok(()));
    assert_eq!(Final(None).check(), Ok(()));
    assert_eq!(Final(Some(with_data("Fine", Some("u32"), "_", Some("5")))).check(), Ok(()));
}

#[test]
fn check_rejects_keywords_as_names() {
    let mut variant = plain("match");
    variant.span = 4;
    assert_eq!(variant.check(), Err(CompileError { kind: ErrorKind::ExpectedIdent, position: 4 }));
    assert_eq!(
        Final(Some(variant)).check(),
        Err(CompileError { kind: ErrorKind::ExpectedIdent, position: 4 })
    );
}

#[test]
fn check_rejects_malformed_clauses() {
    let malformed = CompileError { kind: ErrorKind::MalformedData, position: 0 };
    assert_eq!(with_data("Open", Some("5"), "x", None).check(), Err(malformed));
    assert_eq!(with_data("Open", None, "x +", None).check(), Err(malformed));
    assert_eq!(with_data("Open", None, "", None).check(), Err(malformed));
    assert_eq!(with_data("Open", None, "x", Some("")).check(), Err(malformed));
    assert_eq!(Final(Some(with_data("Fine", Some("5"), "_", Some("5")))).check(), Err(malformed));
    assert_eq!(Final(Some(with_data("Fine", None, "_", Some("+")))).check(), Err(malformed));
}

// ---------------------------------------------------------------- alphabets

#[test]
fn find_type_prefers_the_own_type() {
    let list = vec![with_data("A", Some("u8"), "x", None), with_data("A", Some("u16"), "x", None)];
    assert_eq!(find_type(&list[1], &list), Some(lex("u16")));
    assert_eq!(find_type(&list[0], &list), Some(lex("u8")));
}

#[test]
fn find_type_looks_the_type_up_in_the_list() {
    let list = vec![
        with_data("A", None, "x", None),
        with_data("B", Some("u8"), "x", None),
        with_data("A", Some("u16"), "y", None),
        with_data("A", Some("u32"), "z", None),
    ];
    assert_eq!(find_type(&list[0], &list), Some(lex("u16")));
}

#[test]
fn find_type_of_a_variant_without_data_is_none() {
    let list = vec![plain("A"), with_data("A", Some("u8"), "x", None)];
    assert_eq!(find_type(&list[0], &list), None);
}

#[test]
fn find_type_may_find_nothing() {
    let list = vec![with_data("A", None, "x", None), with_data("B", Some("u8"), "x", None)];
    assert_eq!(find_type(&list[0], &list), None);
    assert_eq!(find_type(&list[0], &Vec::new()), None);
}

#[test]
fn an_alphabet_holds_each_identifier_once_in_order_of_first_occurrence() {
    let list = vec![plain("Open"), plain("Closed"), plain("Closed"), plain("Open"), plain("Broken")];
    let members = alphabet(&list).unwrap();
    assert_eq!(idents(&members), vec!["Open", "Closed", "Broken"]);
    assert!(members.iter().all(|m| m.ty.is_none()));
}

#[test]
fn an_identifier_mentioned_many_times_gives_one_member() {
    let list: Vec<Variant> = (0..50).map(|_| plain("Only")).collect();
    let members = alphabet(&list).unwrap();
    assert_eq!(idents(&members), vec!["Only"]);
}

#[test]
fn the_alphabet_of_nothing_is_empty() {
    assert!(alphabet(&Vec::new()).unwrap().is_empty());
}

#[test]
fn a_later_type_is_adopted_for_an_earlier_pattern() {
    let list = vec![
        with_data("A", None, "x", None),
        plain("B"),
        with_data("A", Some("u32"), "y", None),
    ];
    let members = alphabet(&list).unwrap();
    assert_eq!(idents(&members), vec!["A", "B"]);
    assert_eq!(members[0].ty, Some(lex("u32")));
    assert_eq!(members[1].ty, None);
}

#[test]
fn a_member_carries_data_even_if_its_first_occurrence_does_not() {
    let list = vec![plain("A"), with_data("A", Some("u8"), "x", None)];
    let members = alphabet(&list).unwrap();
    assert_eq!(members.len(), 1);
    assert_eq!(members[0].ty, Some(lex("u8")));
}

#[test]
fn the_first_declared_type_wins() {
    let list = vec![
        with_data("A", None, "x", None),
        with_data("A", Some("u16"), "x", None),
        with_data("A", Some("u8"), "x", None),
    ];
    assert_eq!(alphabet(&list).unwrap()[0].ty, Some(lex("u16")));
}

#[test]
fn a_type_that_is_never_specified_is_an_error_at_the_first_occurrence() {
    let mut first = plain("A");
    first.span = 3;
    let mut second = with_data("A", None, "x", None);
    second.span = 7;
    let mut third = with_data("A", None, "y", None);
    third.span = 11;
    assert_eq!(
        kind_of(alphabet(&vec![first, second, third])),
        (ErrorKind::TypeNeverSpecified, 3)
    );
}

#[test]
fn tokenize_declares_members_with_their_types() {
    let list = vec![
        plain("Key"),
        with_data("Code", None, "c", None),
        plain("Key"),
        with_data("Code", Some("[u8; 4]"), "c", None),
    ];
    assert_eq!(tokenize(&list, |members| members.concat()), Ok(lex("Key Code([u8; 4])")));
    assert_eq!(tokenize(&list, |members| separate(&members)), Ok(lex("Key, Code([u8; 4])")));
    assert_eq!(
        tokenize(&Vec::new(), |members| vec![Token::Literal(members.len().to_string())]),
        Ok(lex("0"))
    );
}

#[test]
fn tokenize_reports_a_missing_type() {
    let mut first = plain("Code");
    first.span = 2;
    let mut second = with_data("Code", None, "c", None);
    second.span = 9;
    let mut called = false;
    let result = tokenize(&vec![plain("Key"), first, second], |members| {
        called = true;
        separate(&members)
    });
    assert_eq!(result, Err(CompileError { kind: ErrorKind::TypeNeverSpecified, position: 2 }));
    assert!(!called);
}

#[test]
fn a_member_declares_itself() {
    assert_eq!(Member { ident: text("Key"), ty: None }.declare(), lex("Key"));
    assert_eq!(Member { ident: text("Code"), ty: Some(lex("u8")) }.declare(), lex("Code(u8)"));
}

// ---------------------------------------------------------------- parser

#[test]
fn an_output_stands_in_square_brackets() {
    let tokens = lex("[SetupTimer] ,");
    let (output, next) = Output::read(&tokens, 0, tokens.len()).unwrap();
    assert_eq!(next, 3);
    assert_eq!(Option::<Final>::from(output).unwrap().variant().unwrap().ident, "SetupTimer");
}

#[test]
fn an_output_may_be_absent() {
    let tokens = lex(", Open");
    let (output, next) = Output::read(&tokens, 0, tokens.len()).unwrap();
    assert_eq!(next, 0);
    let target: Option<Final> = output.into();
    assert!(target.is_none());
}

#[test]
fn an_output_fills_its_brackets() {
    let tokens = lex("[A B]");
    assert_eq!(kind_of(Output::read(&tokens, 0, tokens.len())), (ErrorKind::UnexpectedToken, 2));
    let empty = lex("[]");
    assert_eq!(kind_of(Output::read(&empty, 0, empty.len())), (ErrorKind::ExpectedIdent, 1));
}

#[test]
fn an_entry_is_input_arrow_target_and_output() {
    let tokens = lex("Unsuccessful => Open [SetupTimer]");
    let (entry, next) = TransitionEntry::read(&tokens, 0, tokens.len()).unwrap();
    assert_eq!(next, tokens.len());
    assert_eq!(entry.input_value.ident, "Unsuccessful");
    assert_eq!(entry.final_state.0.unwrap().ident, "Open");
    assert_eq!(entry.output.unwrap().0.unwrap().ident, "SetupTimer");
}

#[test]
fn an_entry_needs_its_arrow() {
    let tokens = lex("Key Closed");
    assert_eq!(
        kind_of(TransitionEntry::read(&tokens, 0, tokens.len())),
        (ErrorKind::MissingArrow, 1)
    );
    let short = lex("Key");
    assert_eq!(
        kind_of(TransitionEntry::read(&short, 0, short.len())),
        (ErrorKind::MissingArrow, 1)
    );
}

#[test]
fn an_entry_needs_its_target() {
    let tokens = lex("Key =>");
    assert_eq!(
        kind_of(TransitionEntry::read(&tokens, 0, tokens.len())),
        (ErrorKind::ExpectedIdent, 3)
    );
}

#[test]
fn entries_are_separated_by_commas() {
    let tokens = lex("Successful => Closed, Unsuccessful => Open [SetupTimer],");
    let entries = TransitionEntry::read_list(&tokens, 0, tokens.len()).unwrap();
    assert_eq!(entries.len(), 2);
    assert_eq!(entries[0].input_value.ident, "Successful");
    assert_eq!(entries[1].input_value.ident, "Unsuccessful");
    assert!(entries[0].output.is_none());
}

#[test]
fn an_empty_list_of_entries_is_empty() {
    let tokens = lex("");
    assert!(TransitionEntry::read_list(&tokens, 0, 0).unwrap().is_empty());
}

#[test]
fn a_missing_comma_is_an_unexpected_token() {
    let tokens = lex("A => B C => D");
    assert_eq!(
        kind_of(TransitionEntry::read_list(&tokens, 0, tokens.len())),
        (ErrorKind::UnexpectedToken, 4)
    );
}

#[test]
fn two_commas_in_a_row_are_an_error() {
    let tokens = lex("A => B,, C => D");
    assert_eq!(
        kind_of(TransitionEntry::read_list(&tokens, 0, tokens.len())),
        (ErrorKind::ExpectedIdent, 5)
    );
}

#[test]
fn a_transition_in_simple_form_has_one_entry() {
    let tokens = lex("Closed => Unsuccessful => Open [SetupTimer], Open => X => Y");
    let (def, next) = TransitionDef::read(&tokens, 0, tokens.len()).unwrap();
    assert_eq!(next, 10);
    assert_eq!(def.initial_state.ident, "Closed");
    assert_eq!(def.transitions.len(), 1);
    assert_eq!(def.transitions[0].input_value.ident, "Unsuccessful");
}

#[test]
fn a_transition_in_compact_form_has_the_entries_of_its_block() {
    let tokens = lex("HalfOpen => { Successful => Closed, Unsuccessful => Open [SetupTimer] }");
    let (def, next) = TransitionDef::read(&tokens, 0, tokens.len()).unwrap();
    assert_eq!(next, tokens.len());
    assert_eq!(def.initial_state.ident, "HalfOpen");
    assert_eq!(def.transitions.len(), 2);
    assert_eq!(def.transitions[1].final_state.0.as_ref().unwrap().ident, "Open");
}

#[test]
fn an_empty_block_is_reported_at_the_initial_state() {
    let tokens = lex("A => B => C, HalfOpen => { }");
    assert_eq!(
        kind_of(TransitionDef::read(&tokens, 8, tokens.len())),
        (ErrorKind::EmptyBlock, 8)
    );
    assert_eq!(
        kind_of(TransitionDef::read_list(&tokens, 0, tokens.len())),
        (ErrorKind::EmptyBlock, 8)
    );
}

#[test]
fn an_unclosed_block_is_reported_at_its_brace() {
    let mut tokens = lex("HalfOpen => ");
    tokens.push(Token::Open(Delimiter::Brace));
    tokens.extend(lex("A => B"));
    assert_eq!(
        kind_of(TransitionDef::read(&tokens, 0, tokens.len())),
        (ErrorKind::Unterminated, 3)
    );
}

#[test]
fn a_transition_needs_its_first_arrow() {
    let tokens = lex("Closed Unsuccessful => Open");
    assert_eq!(
        kind_of(TransitionDef::read(&tokens, 0, tokens.len())),
        (ErrorKind::MissingArrow, 1)
    );
}

#[test]
fn a_header_names_three_enumerations() {
    let tokens = lex("CircuitBreaker => Result => Action Closed");
    let (header, next) = Header::read(&tokens, 0, tokens.len()).unwrap();
    assert_eq!(next, 7);
    assert!(matches!(header.state_name, ImplementationRequired::Yes(ref n, ref g) if n == "CircuitBreaker" && g.is_empty()));
    assert!(matches!(header.input_name, ImplementationRequired::Yes(ref n, _) if n == "Result"));
    assert!(matches!(header.output_name, ImplementationRequired::Yes(ref n, _) if n == "Action"));
    assert!(header.module.is_none());
    assert!(header.initial_state.is_none());
}

#[test]
fn a_header_may_name_enumerations_by_path() {
    let tokens = lex("::crate::State => ::crate::a::Input => Output X");
    let (header, next) = Header::read(&tokens, 0, tokens.len()).unwrap();
    assert_eq!(next, tokens.len() - 1);
    assert!(matches!(header.state_name, ImplementationRequired::No(ref p) if *p == lex("crate::State")));
    assert!(matches!(header.input_name, ImplementationRequired::No(ref p) if *p == lex("crate::a::Input")));
    assert!(matches!(header.output_name, ImplementationRequired::Yes(ref n, _) if n == "Output"));
}

#[test]
fn a_path_may_carry_generic_arguments() {
    let tokens = lex("::crate::State<u8> => ::a::B<Vec<u8> >::C => Output X");
    let (header, next) = Header::read(&tokens, 0, tokens.len()).unwrap();
    assert_eq!(next, tokens.len() - 1);
    assert!(matches!(header.state_name, ImplementationRequired::No(ref p) if *p == lex("crate::State<u8>")));
    assert!(matches!(header.input_name, ImplementationRequired::No(ref p) if *p == lex("a::B<Vec<u8> >::C")));
    assert_eq!(header.state_name.check(0), Ok(()));
    assert_eq!(header.input_name.check(0), Ok(()));
}

#[test]
fn a_header_may_give_generic_parameters() {
    let tokens = lex("Machine<T: Clone> => Input<T> => Output");
    let (header, _) = Header::read(&tokens, 0, tokens.len()).unwrap();
    assert!(matches!(header.state_name, ImplementationRequired::Yes(_, ref g) if *g == lex("<T: Clone>")));
    assert!(matches!(header.input_name, ImplementationRequired::Yes(_, ref g) if *g == lex("<T>")));
}

#[test]
fn a_header_may_name_the_initial_state() {
    let tokens = lex("door(Open) Open => Key => Closed");
    let (header, next) = Header::read(&tokens, 0, tokens.len()).unwrap();
    assert_eq!(next, 4);
    assert!(matches!(header.state_name, ImplementationRequired::Yes(ref n, _) if n == "State"));
    assert!(matches!(header.input_name, ImplementationRequired::Yes(ref n, _) if n == "Input"));
    assert!(matches!(header.output_name, ImplementationRequired::Yes(ref n, _) if n == "Output"));
    assert_eq!(header.module, Some(text("door")));
    assert_eq!(header.initial_state, Some(text("Open")));
}

#[test]
fn a_header_with_an_initial_state_holds_exactly_one_identifier() {
    let empty = lex("door() A => B => C");
    assert_eq!(kind_of(Header::read(&empty, 0, empty.len())), (ErrorKind::ExpectedIdent, 2));
    let two = lex("door(Open Closed) A => B => C");
    assert_eq!(kind_of(Header::read(&two, 0, two.len())), (ErrorKind::UnexpectedToken, 3));
}

#[test]
fn a_header_needs_its_arrows() {
    let tokens = lex("Machine Input");
    assert_eq!(kind_of(Header::read(&tokens, 0, tokens.len())), (ErrorKind::MissingArrow, 1));
    let second = lex("Machine => Input Output");
    assert_eq!(kind_of(Header::read(&second, 0, second.len())), (ErrorKind::MissingArrow, 4));
}

#[test]
fn a_header_needs_names() {
    let tokens = lex("=> Input => Output");
    assert_eq!(kind_of(Header::read(&tokens, 0, tokens.len())), (ErrorKind::ExpectedIdent, 0));
    let path = lex(":: => Input => Output");
    assert_eq!(kind_of(Header::read(&path, 0, path.len())), (ErrorKind::ExpectedIdent, 2));
}

#[test]
fn unclosed_generic_parameters_are_reported_at_the_angle_bracket() {
    let tokens = lex("Machine<T => Input => Output");
    assert_eq!(kind_of(Header::read(&tokens, 0, tokens.len())), (ErrorKind::Unterminated, 1));
}

#[test]
fn a_description_is_attributes_visibility_header_and_transitions() {
    let def = StateMachineDef::read(&lex(CIRCUIT_BREAKER)).unwrap();
    assert_eq!(def.doc, lex("/// A dummy implementation of the Circuit Breaker pattern."));
    assert!(def.attributes.is_empty());
    assert_eq!(def.visibility, lex("pub"));
    assert_eq!(def.span, 7);
    assert!(matches!(def.state_name, ImplementationRequired::Yes(ref n, _) if n == "CircuitBreaker"));
    assert!(def.initial_state.is_none());
    assert_eq!(def.transitions.len(), 3);
    assert_eq!(def.transitions[0].transitions.len(), 1);
    assert_eq!(def.transitions[2].transitions.len(), 2);
    assert_eq!(def.check(), Ok(()));
}

#[test]
fn documentation_is_kept_apart_from_other_attributes() {
    let def = StateMachineDef::read(&lex(
        "#[derive(Debug)] /// one\n #[repr(C)] #[doc = \"two\"] #[doc::hidden] pub(crate) M => I => O A => B => C",
    ))
    .unwrap();
    assert_eq!(def.doc, lex("#[doc = \" one\"] #[doc = \"two\"]"));
    assert_eq!(def.attributes, lex("#[derive(Debug)] #[repr(C)] #[doc::hidden]"));
    assert_eq!(def.visibility, lex("pub(crate)"));
}

#[test]
fn a_visibility_may_be_restricted_to_a_path() {
    let def = StateMachineDef::read(&lex("pub(in crate::a) M => I => O A => B => C")).unwrap();
    assert_eq!(def.visibility, lex("pub(in crate::a)"));
    assert_eq!(def.span, 8);
}

#[test]
fn a_description_without_visibility_has_none() {
    let def = StateMachineDef::read(&lex("M => I => O A => B => C")).unwrap();
    assert!(def.visibility.is_empty());
    assert_eq!(def.span, 0);
}

#[test]
fn a_parenthesis_after_pub_may_belong_to_the_header() {
    let def = StateMachineDef::read(&lex("pub door(Open) Open => Key => Closed")).unwrap();
    assert_eq!(def.visibility, lex("pub"));
    assert_eq!(def.initial_state, Some(text("Open")));
}

#[test]
fn a_description_may_have_no_transitions_when_parsed() {
    let def = StateMachineDef::read(&lex("M => I => O")).unwrap();
    assert!(def.transitions.is_empty());
}

#[test]
fn an_unclosed_attribute_is_reported_at_its_bracket() {
    let tokens = vec![
        Token::Punct('#', false),
        Token::Open(Delimiter::Bracket),
        Token::Ident(text("doc")),
    ];
    assert_eq!(kind_of(StateMachineDef::read(&tokens)), (ErrorKind::Unterminated, 1));
}

#[test]
fn parse_reports_the_first_error_of_the_transitions() {
    assert_eq!(
        kind_of(StateMachineDef::read(&lex("M => I => O A => B => C, D => E"))),
        (ErrorKind::MissingArrow, 19)
    );
    assert_eq!(kind_of(StateMachineDef::read(&lex(""))), (ErrorKind::ExpectedIdent, 0));
}

#[test]
fn check_reports_malformed_header_parts() {
    let mut def = StateMachineDef::read(&lex("pub M => I => O A => B => C")).unwrap();
    assert_eq!(def.check(), Ok(()));
    def.attributes = lex("#[5]");
    assert_eq!(kind_of(def.check()), (ErrorKind::MalformedHeader, 0));
    def.attributes = Vec::new();
    def.visibility = lex("private");
    assert_eq!(kind_of(def.check()), (ErrorKind::MalformedHeader, 1));
    def.visibility = Vec::new();
    def.input_name = ImplementationRequired::Yes(text("I"), lex("<5>"));
    assert_eq!(kind_of(def.check()), (ErrorKind::MalformedHeader, 1));
    def.input_name = ImplementationRequired::No(lex("a::"));
    assert_eq!(kind_of(def.check()), (ErrorKind::MalformedHeader, 1));
    def.input_name = ImplementationRequired::Yes(text("fn"), Vec::new());
    assert_eq!(kind_of(def.check()), (ErrorKind::ExpectedIdent, 1));
    def.input_name = ImplementationRequired::Yes(text("I"), Vec::new());
    def.initial_state = Some(text("loop"));
    assert_eq!(kind_of(def.check()), (ErrorKind::ExpectedIdent, 1));
    def.initial_state = Some(text("Open"));
    def.module = Some(text("mod"));
    assert_eq!(kind_of(def.check()), (ErrorKind::ExpectedIdent, 1));
    def.module = Some(text("door"));
    assert_eq!(def.check(), Ok(()));
}

#[test]
fn check_reports_the_first_faulty_transition() {
    let def = StateMachineDef::read(&lex(
        "M => I => O A => B => C, D => { E => F, G(5 => x) => H, I(=> +) => J }",
    ))
    .unwrap();
    assert_eq!(kind_of(def.check()), (ErrorKind::MalformedData, 24));
    assert_eq!(kind_of(def.transitions[1].check()), (ErrorKind::MalformedData, 24));
    assert_eq!(def.transitions[0].check(), Ok(()));
    assert_eq!(def.transitions[1].transitions[0].check(), Ok(()));
    assert_eq!(kind_of(def.transitions[1].transitions[2].check()), (ErrorKind::MalformedData, 35));
}

#[test]
fn check_looks_at_input_target_and_output_of_an_entry() {
    let tokens = lex("type => B(=> +) [C(5 => 1)]");
    let (entry, _) = TransitionEntry::read(&tokens, 0, tokens.len()).unwrap();
    assert_eq!(kind_of(entry.check()), (ErrorKind::ExpectedIdent, 0));
    let tokens = lex("A => B(=> +) [C(5 => 1)]");
    let (entry, _) = TransitionEntry::read(&tokens, 0, tokens.len()).unwrap();
    assert_eq!(kind_of(entry.check()), (ErrorKind::MalformedData, 3));
    let tokens = lex("A => B(=> 1) [C(5 => 1)]");
    let (entry, _) = TransitionEntry::read(&tokens, 0, tokens.len()).unwrap();
    assert_eq!(kind_of(entry.check()), (ErrorKind::MalformedData, 10));
}

#[test]
fn names_know_their_path_and_generic_parameters() {
    let owned = ImplementationRequired::Yes(text("Machine"), lex("<T>"));
    assert_eq!(owned.g(), lex("<T>"));
    assert_eq!(owned.duplicate().path(), lex("Machine"));
    let outside = ImplementationRequired::No(lex("crate::State"));
    assert!(outside.g().is_empty());
    assert_eq!(outside.path(), lex("crate::State"));
}

#[test]
fn tokenize_declares_an_owned_enumeration_only() {
    let owned = ImplementationRequired::Yes(text("Input"), Vec::new());
    assert_eq!(owned.tokenize(|ident| lex(&format!("struct {ident};"))), lex("struct Input;"));
    let outside = ImplementationRequired::No(lex("crate::Input"));
    assert!(outside.tokenize(|ident| lex(&format!("struct {ident};"))).is_empty());
}

#[test]
fn an_enumeration_is_declared_with_head_and_members() {
    let members = vec![lex("Key"), lex("Code(u8)")];
    let owned = ImplementationRequired::Yes(text("Input"), Vec::new());
    assert_eq!(
        emit_enum(&owned, &lex("#[derive(Debug)] pub"), &members),
        lex("#[derive(Debug)] pub enum Input { Key, Code(u8) }")
    );
    assert_eq!(emit_enum(&owned, &Vec::new(), &Vec::new()), lex("enum Input { }"));
    let outside = ImplementationRequired::No(lex("crate::Input"));
    assert!(emit_enum(&outside, &lex("pub"), &members).is_empty());
}

// ---------------------------------------------------------------- table

#[test]
fn guards_are_joined_by_a_conjunction() {
    assert_eq!(compose_guards(&None, &None), None);
    assert_eq!(compose_guards(&Some(lex("a")), &None), Some(lex("a")));
    assert_eq!(compose_guards(&None, &Some(lex("b"))), Some(lex("b")));
    assert_eq!(
        compose_guards(&Some(lex("a || b")), &Some(lex("c"))),
        Some(lex("(a || b) && (c)"))
    );
}

#[test]
fn a_row_has_the_guards_of_state_and_input() {
    let tokens = lex("Open(u8 => x if x > 1) => Key(u8 => k if k == x) => Closed");
    let (def, _) = TransitionDef::read(&tokens, 0, tokens.len()).unwrap();
    let row = Row::new(&def.initial_state, &def.transitions[0]).unwrap();
    assert!(row.is_guarded());
    assert_eq!(row.guard(), Some(lex("(x > 1) && (k == x)")));
    let tokens = lex("Open(u8 => x) => Key => Closed");
    let (def, _) = TransitionDef::read(&tokens, 0, tokens.len()).unwrap();
    let row = Row::new(&def.initial_state, &def.transitions[0]).unwrap();
    assert!(!row.is_guarded());
    assert_eq!(row.guard(), None);
}

#[test]
fn stay_resolves_to_the_initial_state() {
    let initial = with_data("Open", Some("u32"), "n", Some("n > 0"));
    let stay = resolve_target(&Final(None), &initial);
    assert_eq!(stay.ident, "Open");
    assert_eq!(stay.field, Some((Some(lex("u32")), lex("_"), Some(lex("n")))));
    assert_eq!(stay.value(), lex("Open(n)"));
    let bare = resolve_target(&Final(None), &plain("Open"));
    assert_eq!(bare.ident, "Open");
    assert!(bare.field.is_none());
    let named = resolve_target(&Final(Some(plain("Closed"))), &initial);
    assert_eq!(named.ident, "Closed");
}

#[test]
fn a_stay_target_gives_a_row_that_targets_its_initial_state() {
    let def = StateMachineDef::read(&lex(
        "M => I => O A => X => B, S => { X => T, Y => _ [Out], Z => _ }",
    ))
    .unwrap();
    let rows = build_rows(&def.transitions).unwrap();
    assert_eq!(rows.len(), 4);
    assert_eq!(rows[1].target.ident, "T");
    assert_eq!(rows[2].initial.ident, "S");
    assert_eq!(rows[2].target.ident, "S");
    assert_eq!(rows[2].output.as_ref().unwrap().ident, "Out");
    assert_eq!(rows[3].target.ident, "S");
    assert!(rows[3].output.is_none());
}

#[test]
fn rows_stand_in_the_order_of_declaration() {
    let def = StateMachineDef::read(&lex(CIRCUIT_BREAKER)).unwrap();
    let rows = build_rows(&def.transitions).unwrap();
    let keys: Vec<(String, String, String)> = rows
        .iter()
        .map(|r| (r.initial.ident.clone(), r.input.ident.clone(), r.target.ident.clone()))
        .collect();
    assert_eq!(
        keys,
        vec![
            (text("Closed"), text("Unsuccessful"), text("Open")),
            (text("Open"), text("TimerTriggered"), text("HalfOpen")),
            (text("HalfOpen"), text("Successful"), text("Closed")),
            (text("HalfOpen"), text("Unsuccessful"), text("Open")),
        ]
    );
}

#[test]
fn occurrences_are_collected_row_by_row() {
    let def = StateMachineDef::read(&lex(
        "M => I => O A => X => B [P], B => { Y => _, X => A [Q] }",
    ))
    .unwrap();
    let rows = build_rows(&def.transitions).unwrap();
    let names = |list: Vec<Variant>| list.into_iter().map(|v| v.ident).collect::<Vec<_>>();
    assert_eq!(names(collect_states(&rows)), vec!["A", "B", "B", "B", "B", "A"]);
    assert_eq!(names(collect_inputs(&rows)), vec!["X", "Y", "X"]);
    assert_eq!(names(collect_outputs(&rows)), vec!["P", "Q"]);
    assert!(collect_states(&Vec::new()).is_empty());
}

#[test]
fn a_transition_gives_one_row_for_each_entry() {
    let def = StateMachineDef::read(&lex(CIRCUIT_BREAKER)).unwrap();
    let rows = build_def_rows(&def.transitions[2]).unwrap();
    assert_eq!(rows.len(), 2);
    assert_eq!(rows[0].initial.ident, "HalfOpen");
    assert_eq!(rows[0].input.ident, "Successful");
    assert_eq!(rows[1].initial.ident, "HalfOpen");
    assert_eq!(rows[1].target.ident, "Open");
    assert_eq!(rows[1].output.as_ref().unwrap().ident, "SetupTimer");
}

#[test]
fn a_stay_output_is_an_error() {
    let mut input = plain("X");
    input.span = 9;
    let entry = TransitionEntry {
        input_value: input,
        final_state: Final(Some(plain("B"))),
        output: Some(Final(None)),
    };
    assert_eq!(kind_of(Row::new(&plain("A"), &entry)), (ErrorKind::StayOutput, 9));
    assert_eq!(
        kind_of(compile(&lex("M => I => O A => X => B [_]"))),
        (ErrorKind::StayOutput, 10)
    );
}

#[test]
fn a_transition_without_entries_is_an_error() {
    let mut initial = plain("A");
    initial.span = 5;
    let defs = vec![TransitionDef { initial_state: initial, transitions: Vec::new() }];
    assert_eq!(kind_of(build_rows(&defs)), (ErrorKind::EmptyBlock, 5));
}

#[test]
fn a_description_without_transitions_is_an_error() {
    assert_eq!(kind_of(compile(&lex("pub M => I => O"))), (ErrorKind::NoTransitions, 1));
}

#[test]
fn a_type_never_specified_is_a_compile_error() {
    assert_eq!(
        kind_of(compile(&lex("M => I => O A(x) => X => B, B => X => A(1)"))),
        (ErrorKind::TypeNeverSpecified, 7)
    );
    assert_eq!(
        kind_of(compile(&lex("M => I => O A => X(x) => B"))),
        (ErrorKind::TypeNeverSpecified, 10)
    );
    assert_eq!(
        kind_of(compile(&lex("M => I => O A => X => B [Out(1)]"))),
        (ErrorKind::TypeNeverSpecified, 15)
    );
}

#[test]
fn compile_reports_parse_errors_before_anything_else() {
    assert_eq!(
        kind_of(compile(&lex("M => I => O fn => X => B Y"))),
        (ErrorKind::UnexpectedToken, 14)
    );
    assert_eq!(
        kind_of(compile(&lex("M => I => O fn => X => B"))),
        (ErrorKind::ExpectedIdent, 7)
    );
}

#[test]
fn the_alphabets_of_a_machine_hold_each_identifier_once() {
    let machine = compile(&lex(CIRCUIT_BREAKER)).unwrap();
    assert_eq!(idents(&machine.states), vec!["Closed", "Open", "HalfOpen"]);
    assert_eq!(idents(&machine.inputs), vec!["Unsuccessful", "TimerTriggered", "Successful"]);
    assert_eq!(idents(&machine.outputs), vec!["SetupTimer"]);
    assert_eq!(machine.rows.len(), 4);
}

#[test]
fn a_type_declared_in_a_later_transition_is_used_for_the_member() {
    let machine = compile(&lex(
        "M => I => O
         Idle => Start(n) => Counting(n),
         Counting(c) => Tick => Counting(c + 1),
         Counting(u32 => c if c > 9) => Start(u32 => n) => Idle",
    ))
    .unwrap();
    assert_eq!(idents(&machine.states), vec!["Idle", "Counting"]);
    assert_eq!(machine.states[0].ty, None);
    assert_eq!(machine.states[1].ty, Some(lex("u32")));
    assert_eq!(idents(&machine.inputs), vec!["Start", "Tick"]);
    assert_eq!(machine.inputs[0].ty, Some(lex("u32")));
    assert_eq!(machine.inputs[1].ty, None);
}

// ---------------------------------------------------------------- running

#[test]
fn door_lock() {
    let machine = compile(&lex(DOOR)).unwrap();
    assert_eq!(idents(&machine.states), vec!["Open", "Closed", "Broken"]);
    assert_eq!(idents(&machine.inputs), vec!["Key", "Break"]);
    assert!(machine.outputs.is_empty());
    assert_eq!(step(&machine, "Open", "Key"), Ok((text("Closed"), None)));
    assert_eq!(
        step(&machine, "Broken", "Key"),
        Err(Rejected { state: text("Broken"), input: text("Key") })
    );
    assert_eq!(step(&machine, "Closed", "Key"), Ok((text("Open"), None)));
    assert_eq!(step(&machine, "Open", "Break"), Ok((text("Broken"), None)));
    assert_eq!(step(&machine, "Closed", "Break"), Ok((text("Broken"), None)));
}

#[test]
fn circuit_breaker() {
    let machine = compile(&lex(CIRCUIT_BREAKER)).unwrap();
    assert_eq!(
        step(&machine, "Closed", "Unsuccessful"),
        Ok((text("Open"), Some(text("SetupTimer"))))
    );
    assert_eq!(
        step(&machine, "Open", "Successful"),
        Err(Rejected { state: text("Open"), input: text("Successful") })
    );
    assert_eq!(step(&machine, "HalfOpen", "Successful"), Ok((text("Closed"), None)));
}

#[test]
fn simple() {
    let machine = compile(&lex(
        "#[derive(Debug, Clone, Copy)]
         #[repr(C)]
         door(Open)

         Open => Key => Closed,
         Closed => Key => Open,
         Open => Break => Broken,
         Closed => Break => Broken,
         Open => Thing(u32 => 5) => Fine,",
    ))
    .unwrap();
    let mut state = machine.initial_state.clone().unwrap();
    state = step(&machine, &state, "Key").unwrap().0;
    println!("{:?}", state);
    assert_eq!(state, "Closed");
    state = step(&machine, &state, "Key").unwrap().0;
    println!("{:?}", state);
    assert_eq!(state, "Open");
    state = step(&machine, &state, "Break").unwrap().0;
    println!("{:?}", state);
    assert_eq!(state, "Broken");
}

#[test]
fn circuit_breaker_dsl_circit_breaker_dsl() {
    let machine = compile(&lex(
        "/// A dummy implementation of the Circuit Breaker pattern to demonstrate
         /// capabilities of its library DSL for defining finite state machines.
         /// https://martinfowler.com/bliki/CircuitBreaker.html
         #[derive(Debug)]
         pub CircuitBreaker => Result => Action

         Closed => Unsuccessful => Open [SetupTimer],
         Open => TimerTriggered => HalfOpen,
         HalfOpen => {
             Successful => Closed,
             Unsuccessful => Open [SetupTimer]
         }",
    ))
    .unwrap();
    let mut state = text("Closed");

    // Unsuccessful request
    let (next, res) = step(&machine, &state, "Unsuccessful").unwrap();
    state = next;
    assert!(matches!(res.as_deref(), Some("SetupTimer")));
    assert!(matches!(state.as_str(), "Open"));

    // Try to pass a request when the circuit breaker is still open
    let res = step(&machine, &state, "Successful");
    assert!(matches!(res, Err(_)));
    if let Err(rejected) = res {
        state = rejected.state;
    }
    assert!(matches!(state.as_str(), "Open"));

    // The timer fires
    let (next, res) = step(&machine, &state, "TimerTriggered").unwrap();
    state = next;
    assert!(matches!(res, None));
    assert!(matches!(state.as_str(), "HalfOpen"));

    // Test if the circuit breaker was actually closed
    let (next, res) = step(&machine, &state, "Successful").unwrap();
    state = next;
    assert!(matches!(res, None));
    assert!(matches!(state.as_str(), "Closed"));
}

#[test]
fn circuit_breaker_dsl_custom_types_circit_breaker_dsl() {
    let machine = compile(&lex(
        "::crate::State => ::crate::Input => ::crate::Output

         Closed => Unsuccessful => Open [SetupTimer],
         Open => TimerTriggered => HalfOpen,
         HalfOpen => {
             Successful => Closed,
             Unsuccessful => Open [SetupTimer]
         }",
    ))
    .unwrap();
    let mut state = text("Closed");

    let (next, res) = step(&machine, &state, "Unsuccessful").unwrap();
    state = next;
    assert!(matches!(res.as_deref(), Some("SetupTimer")));
    assert!(matches!(state.as_str(), "Open"));

    let res = step(&machine, &state, "Successful");
    assert!(matches!(res, Err(Rejected { .. })));
    if let Err(rejected) = res {
        state = rejected.state;
    }
    assert!(matches!(state.as_str(), "Open"));

    let (next, res) = step(&machine, &state, "TimerTriggered").unwrap();
    state = next;
    assert!(matches!(res, None));
    assert!(matches!(state.as_str(), "HalfOpen"));

    let (next, res) = step(&machine, &state, "Successful").unwrap();
    state = next;
    assert!(matches!(res, None));
    assert!(matches!(state.as_str(), "Closed"));
}

#[test]
fn every_undeclared_pair_is_rejected_with_its_state_and_input() {
    let machine = compile(&lex(CIRCUIT_BREAKER)).unwrap();
    let states = ["Closed", "Open", "HalfOpen", "Nowhere"];
    let inputs = ["Unsuccessful", "TimerTriggered", "Successful", "Noise"];
    let declared = [
        ("Closed", "Unsuccessful"),
        ("Open", "TimerTriggered"),
        ("HalfOpen", "Successful"),
        ("HalfOpen", "Unsuccessful"),
    ];
    for state in states {
        for input in inputs {
            let result = machine.transition(text(state), text(input), &vec![true; 4]);
            if declared.contains(&(state, input)) {
                assert!(result.is_ok());
            } else {
                assert_eq!(result, Err(Rejected { state: text(state), input: text(input) }));
            }
        }
    }
}

#[test]
fn the_same_call_gives_the_same_result() {
    let machine = compile(&lex(
        "M => I => O A(u8 => x if x > 1) => X => B [Out], A(x) => X => C, B => X => _",
    ))
    .unwrap();
    for holds in [vec![], vec![true], vec![false, true, true]] {
        for (state, input) in [("A", "X"), ("B", "X"), ("C", "X"), ("A", "Y")] {
            let first = machine.transition(text(state), text(input), &holds);
            let second = machine.transition(text(state), text(input), &holds);
            assert_eq!(first, second);
        }
    }
}

#[test]
fn a_false_guard_lets_the_later_unguarded_row_win() {
    let machine = compile(&lex(
        "M => I => O
         A => X(u8 => x if x > 9) => Big [Loud],
         A => X(x) => Small",
    ))
    .unwrap();
    assert_eq!(
        machine.transition(text("A"), text("X"), &vec![false, false]),
        Ok((text("Small"), None))
    );
    assert_eq!(
        machine.transition(text("A"), text("X"), &vec![true, false]),
        Ok((text("Big"), Some(text("Loud"))))
    );
}

#[test]
fn guards_are_tried_in_the_order_of_declaration() {
    let machine = compile(&lex(
        "M => I => O
         A => X(u8 => x if x > 9) => First,
         A => X(x if x > 5) => Second,
         A(u8 => a if a > 0) => X(x if x > 1) => Third",
    ))
    .unwrap();
    let run = |holds: Vec<bool>| machine.transition(text("A"), text("X"), &holds);
    assert_eq!(run(vec![true, true, true]), Ok((text("First"), None)));
    assert_eq!(run(vec![false, true, true]), Ok((text("Second"), None)));
    assert_eq!(run(vec![false, false, true]), Ok((text("Third"), None)));
    assert_eq!(
        run(vec![false, false, false]),
        Err(Rejected { state: text("A"), input: text("X") })
    );
}

#[test]
fn a_guard_that_is_not_answered_does_not_hold() {
    let machine = compile(&lex("M => I => O A => X(u8 => x if x > 9) => B")).unwrap();
    assert_eq!(
        machine.transition(text("A"), text("X"), &vec![]),
        Err(Rejected { state: text("A"), input: text("X") })
    );
    assert_eq!(machine.transition(text("A"), text("X"), &vec![true]), Ok((text("B"), None)));
}

#[test]
fn an_unguarded_row_shadows_the_rows_after_it() {
    let machine = compile(&lex(
        "M => I => O A => X => B, A => X(u8 => x if x > 9) => C",
    ))
    .unwrap();
    assert_eq!(machine.transition(text("A"), text("X"), &vec![true, true]), Ok((text("B"), None)));
}

#[test]
fn a_stay_row_keeps_the_state() {
    let machine = compile(&lex("M => I => O A => { X => _, Y => B [Out] }")).unwrap();
    assert_eq!(step(&machine, "A", "X"), Ok((text("A"), None)));
    assert_eq!(step(&machine, "A", "Y"), Ok((text("B"), Some(text("Out")))));
}

// ---------------------------------------------------------------- diagram

#[test]
fn reserved_characters_are_escaped_in_labels() {
    let mut out = String::from(">");
    escape_into(&mut out, "a::b(c)[d]|e f");
    assert_eq!(out, ">a#58;#58;b#40;c#41;#91;d#93;#124;e f");
    let mut same = String::new();
    escape_into(&mut same, "Plain_1 text");
    assert_eq!(same, "Plain_1 text");
    escape_into(&mut same, "");
    assert_eq!(same, "Plain_1 text");
}

#[test]
fn the_diagram_lists_the_rows_in_order() {
    let machine = compile(&lex(CIRCUIT_BREAKER)).unwrap();
    assert_eq!(
        machine.diagram(),
        "stateDiagram-v2\n    \
         Closed --> Open: Unsuccessful #91;SetupTimer#93;\n    \
         Open --> HalfOpen: TimerTriggered \n    \
         HalfOpen --> Closed: Successful \n    \
         HalfOpen --> Open: Unsuccessful #91;SetupTimer#93;\n"
    );
}

#[test]
fn the_diagram_shows_patterns_guards_and_resolved_targets() {
    let machine = compile(&lex("M => I => O A(u8 => a) => X(u8 => x if x > a) => _")).unwrap();
    assert_eq!(machine.rows[0].diagram_line(), "    A --> A: X #40; x #41; if x > a \n");
    assert_eq!(machine.diagram(), "stateDiagram-v2\n    A --> A: X #40; x #41; if x > a \n");
}

// ---------------------------------------------------------------- code

#[test]
fn the_door_lock_is_emitted_as_three_enumerations_and_a_function() {
    let expected = "
        pub enum DoorInput { Key, Break }
        pub enum Door { Open, Closed, Broken }
        pub enum DoorOutput { }
        impl ::rust_fsm::StateMachineImpl for Door {
            type Input = DoorInput;
            type Output = DoorOutput;
            fn transition(self, input: Self::Input) -> ::core::result::Result<
                (Self, ::core::option::Option<Self::Output> ),
                ::rust_fsm::TransitionImpossibleError<Self, Self::Input> >
            {
                match (self, input) {
                    (Self::Open, Self::Input::Key) => {
                        ::core::result::Result::Ok((Self::Closed, ::core::option::Option::None))
                    }
                    (Self::Closed, Self::Input::Key) => {
                        ::core::result::Result::Ok((Self::Open, ::core::option::Option::None))
                    }
                    (Self::Open, Self::Input::Break) => {
                        ::core::result::Result::Ok((Self::Broken, ::core::option::Option::None))
                    }
                    (Self::Closed, Self::Input::Break) => {
                        ::core::result::Result::Ok((Self::Broken, ::core::option::Option::None))
                    }
                    (state, input) => ::core::result::Result::Err(
                        ::rust_fsm::TransitionImpossibleError { state, input, }),
                }
            }
        }
    ";
    assert_eq!(state_machine(lex(DOOR)), Ok(lex(expected)));
}

#[test]
fn data_guards_and_outputs_are_emitted_in_the_arms() {
    let machine = compile(&lex(
        "M => I => O
         A(u8 => a if a > 1) => X(u16 => x if x > 2) => B(u8 => a + 1) [Out(u32 => 7)],
         A(a) => Y => _",
    ))
    .unwrap();
    assert_eq!(
        machine.rows[0].emit(),
        lex("(Self::A(a), Self::Input::X(x)) if (a > 1) && (x > 2) => {
                ::core::result::Result::Ok((Self::B(a + 1),
                    ::core::option::Option::Some(Self::Output::Out(7))))
             }")
    );
    assert_eq!(
        machine.rows[1].emit(),
        lex("(Self::A(a), Self::Input::Y) => {
                ::core::result::Result::Ok((Self::A(a), ::core::option::Option::None))
             }")
    );
    assert_eq!(machine.rows[0].emit_pattern(), lex("(Self::A(a), Self::Input::X(x))"));
    assert_eq!(machine.rows[0].emit_guard(), lex("if (a > 1) && (x > 2)"));
    assert!(machine.rows[1].emit_guard().is_empty());
    assert_eq!(
        machine.rows[0].emit_output(),
        lex("::core::option::Option::Some(Self::Output::Out(7))")
    );
    assert_eq!(
        machine.rows[1].emit_body(),
        lex("{ ::core::result::Result::Ok((Self::A(a), ::core::option::Option::None)) }")
    );
    let code = machine.emit();
    let declared: Vec<Token> =
        lex("enum I { X(u16), Y } enum M { A(u8), B(u8) } enum O { Out(u32) }");
    assert_eq!(code[..declared.len()], declared[..]);
}

#[test]
fn items_are_separated_by_commas() {
    assert!(separate(&Vec::new()).is_empty());
    assert_eq!(separate(&vec![lex("A")]), lex("A"));
    assert_eq!(separate(&vec![lex("A"), lex("B(u8)"), lex("C")]), lex("A, B(u8), C"));
}

#[test]
fn the_rejecting_arm_hands_state_and_input_back() {
    assert_eq!(
        emit_rejection_arm(),
        lex("(state, input) => ::core::result::Result::Err(
                 ::rust_fsm::TransitionImpossibleError { state, input, }),")
    );
}

#[test]
fn the_function_returns_a_result() {
    assert_eq!(
        emit_return_type(),
        lex("::core::result::Result<(Self, ::core::option::Option<Self::Output> ),
                 ::rust_fsm::TransitionImpossibleError<Self, Self::Input> >")
    );
}

#[test]
fn the_function_matches_with_one_arm_for_each_row_in_order() {
    let machine = compile(&lex("M => I => O A => X => B, B => X(u8 => x if x > 1) => _")).unwrap();
    let mut arms = machine.rows[0].emit();
    arms.extend(machine.rows[1].emit());
    assert_eq!(emit_arms(&machine.rows), arms);
    assert!(emit_arms(&Vec::new()).is_empty());
    let mut expected = lex("fn transition(self, input: Self::Input) ->");
    expected.extend(emit_return_type());
    expected.push(Token::Open(Delimiter::Brace));
    expected.extend(lex("match (self, input)"));
    expected.push(Token::Open(Delimiter::Brace));
    expected.extend(arms);
    expected.extend(emit_rejection_arm());
    expected.push(Token::Close(Delimiter::Brace));
    expected.push(Token::Close(Delimiter::Brace));
    assert_eq!(emit_function(&machine.rows), expected);
}

#[test]
fn header_attributes_stand_before_each_enumeration() {
    let machine = compile(&lex(
        "/// Doc.
         #[derive(Debug)]
         pub(crate) M => I => O
         A => X => B [Out]",
    ))
    .unwrap();
    let head = "#[doc = \" Doc.\"] #[derive(Debug)] pub(crate)";
    let expected = format!(
        "{head} enum I {{ X }} {head} enum M {{ A, B }} {head} enum O {{ Out }}"
    );
    let code = machine.emit();
    let declared = lex(&expected);
    assert_eq!(code[..declared.len()], declared[..]);
    assert_eq!(code[declared.len()..], machine.emit_impl()[..]);
}

#[test]
fn an_empty_output_enumeration_gets_no_attributes() {
    let machine = compile(&lex(
        "/// Doc.
         #[derive(Debug)]
         pub M => I => O
         A => X => B",
    ))
    .unwrap();
    let code = machine.emit();
    let declared = lex(
        "#[doc = \" Doc.\"] #[derive(Debug)] pub enum I { X }
         #[doc = \" Doc.\"] #[derive(Debug)] pub enum M { A, B }
         #[doc = \" Doc.\"] pub enum O { }",
    );
    assert_eq!(code[..declared.len()], declared[..]);
}

#[test]
fn a_named_machine_is_emitted_as_a_module() {
    let machine = compile(&lex(
        "#[derive(Debug)] pub(crate) door(Open) Open => Key => Closed [Click]",
    ))
    .unwrap();
    assert_eq!(machine.module, Some(text("door")));
    assert_eq!(machine.initial_state, Some(text("Open")));
    let mut expected = lex("pub(crate) mod door");
    expected.push(Token::Open(Delimiter::Brace));
    expected.extend(lex(
        "#[derive(Debug)] pub enum Input { Key }
         #[derive(Debug)] pub enum State { Open, Closed }
         #[derive(Debug)] pub enum Output { Click }
         impl ::rust_fsm::StateMachineImpl for State",
    ));
    let code = machine.emit();
    assert_eq!(code[..expected.len()], expected[..]);
    assert_eq!(code.last(), Some(&Token::Close(Delimiter::Brace)));
    assert_eq!(code[7..code.len() - 1], machine.emit_items()[..]);
}

#[test]
fn enumerations_defined_elsewhere_are_not_declared() {
    let code =
        state_machine(lex("::crate::State => ::crate::Input => Output A => X => B [Out]")).unwrap();
    let mut expected = lex("enum Output { Out } impl ::rust_fsm::StateMachineImpl for crate::State");
    expected.push(Token::Open(Delimiter::Brace));
    expected.extend(lex("type Input = crate::Input; type Output = Output; fn transition"));
    assert_eq!(code[..expected.len()], expected[..]);
}

#[test]
fn emitted_code_is_rust() {
    for source in [
        DOOR,
        CIRCUIT_BREAKER,
        "M => I => O
         A(u8 => a if a > 1) => X(u16 => x if x > 2) => B(u8 => a + 1) [Out(u32 => 7)],
         A(a) => Y => _",
        "#[derive(Debug)] pub(crate) door(Open) Open => Key => Closed",
    ] {
        let code = render(&state_machine(lex(source)).unwrap());
        assert!(syn::parse_str::<syn::File>(&code).is_ok(), "{}", code);
        assert!(code.contains("fn transition"));
    }
}

#[test]
fn a_description_that_fails_gives_a_located_diagnostic_and_no_code() {
    assert_eq!(
        state_machine(lex("pub M => I => O")),
        Err(CompileError { kind: ErrorKind::NoTransitions, position: 1 })
    );
    assert_eq!(
        state_machine(lex("M => I => O A => { }")),
        Err(CompileError { kind: ErrorKind::EmptyBlock, position: 7 })
    );
    assert_eq!(
        state_machine(lex("M => I => O A => X => B, B(x) => X => A")),
        Err(CompileError { kind: ErrorKind::TypeNeverSpecified, position: 13 })
    );
    assert_eq!(
        state_machine(lex("M => I => O A => X() => B")),
        Err(CompileError { kind: ErrorKind::MalformedData, position: 10 })
    );
    assert_eq!(
        state_machine(lex("M => I => O A => X(5 5 => x) => B")),
        Err(CompileError { kind: ErrorKind::MalformedData, position: 10 })
    );
}

#[test]
fn a_diagnostic_can_be_emitted_as_a_compile_error() {
    assert_eq!(
        CompileError { kind: ErrorKind::NoTransitions, position: 1 }.emit(),
        lex("::core::compile_error ! { \"rust-fsm: at least one state transition must be provided\" }")
    );
    assert_eq!(
        CompileError { kind: ErrorKind::EmptyBlock, position: 7 }.emit(),
        lex("::core::compile_error ! { \"No transitions provided for a compact representation\" }")
    );
    assert_eq!(
        CompileError { kind: ErrorKind::TypeNeverSpecified, position: 0 }.emit(),
        lex("::core::compile_error ! { \"type never specified\" }")
    );
    let code = render(&CompileError { kind: ErrorKind::MissingArrow, position: 0 }.emit());
    assert!(syn::parse_str::<syn::File>(&code).is_ok());
}

#[test]
fn every_diagnostic_has_its_text() {
    let text_of = |kind| CompileError { kind, position: 0 }.message();
    assert_eq!(text_of(ErrorKind::ExpectedIdent), "expected identifier");
    assert_eq!(text_of(ErrorKind::MissingArrow), "expected `=>`");
    assert_eq!(text_of(ErrorKind::Unterminated), "unterminated bracket");
    assert_eq!(text_of(ErrorKind::UnexpectedToken), "unexpected token");
    assert_eq!(
        text_of(ErrorKind::EmptyBlock),
        "No transitions provided for a compact representation"
    );
    assert_eq!(text_of(ErrorKind::MalformedData), "malformed associated data");
    assert_eq!(text_of(ErrorKind::MalformedHeader), "malformed header");
    assert_eq!(
        text_of(ErrorKind::NoTransitions),
        "rust-fsm: at least one state transition must be provided"
    );
    assert_eq!(text_of(ErrorKind::TypeNeverSpecified), "type never specified");
    assert_eq!(text_of(ErrorKind::StayOutput), "`_` cannot name an output");
}

#[test]
fn a_diagnostic_is_emitted_with_its_text_as_a_literal() {
    let error = CompileError { kind: ErrorKind::MissingArrow, position: 3 };
    assert_eq!(
        error.emit(),
        vec![
            Token::Punct(':', true),
            Token::Punct(':', false),
            Token::Ident(text("core")),
            Token::Punct(':', true),
            Token::Punct(':', false),
            Token::Ident(text("compile_error")),
            Token::Punct('!', false),
            Token::Open(Delimiter::Brace),
            Token::Literal(text("\"expected `=>`\"")),
            Token::Close(Delimiter::Brace),
        ]
    );
}
