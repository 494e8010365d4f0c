use yapl::ast::{BracketKind, Error, ErrorKind, Line, Sentence, Span, Statement};
use yapl::parser::Parser;
use yapl::symbol::{classify, SymbolType};

fn parse(text: &str, line: u16) -> Result<Option<(u8, Line)>, Error> {
    Parser::new(text, line).parse()
}

fn parse_ok(text: &str) -> (u8, Line) {
    match parse(text, 1) {
        Ok(Some(r)) => r,
        other => panic!("unexpected result {:?}", other),
    }
}

fn parse_err(text: &str) -> Error {
    match parse(text, 1) {
        Err(e) => e,
        other => panic!("expected an error, got {:?}", other),
    }
}

fn chars(s: &str) -> Vec<char> {
    s.chars().collect()
}

fn span(offset: usize, len: usize) -> (usize, usize) {
    (offset, len)
}

fn of(sp: &Span) -> (usize, usize) {
    (sp.begin.offset, sp.len)
}

fn parts(st: &Statement) -> &Vec<Sentence> {
    match st {
        Statement::Bracket(_, p) => p,
        other => panic!("not a bracket: {:?}", other),
    }
}

#[test]
fn indentation_not_multiple_of_four() {
    let e = parse_err("   a");
    assert_eq!(e.kind, ErrorKind::Indentation);
    assert_eq!(of(&e.span), span(0, 3));
    let e = parse_err("\t a");
    assert_eq!(e.kind, ErrorKind::Indentation);
    assert_eq!(of(&e.span), span(0, 2));
    let e = parse_err("     ");
    assert_eq!(e.kind, ErrorKind::Indentation);
    assert_eq!(of(&e.span), span(0, 5));
}

#[test]
fn indentation_levels() {
    assert_eq!(parse_ok("a").0, 0);
    assert_eq!(parse_ok("    a").0, 1);
    assert_eq!(parse_ok("        a").0, 2);
    assert_eq!(parse_ok("\ta").0, 1);
    assert_eq!(parse_ok("\t    a").0, 2);
}

#[test]
fn blank_and_comment_lines_have_no_statements() {
    assert!(matches!(parse("", 1), Ok(None)));
    assert!(matches!(parse("    ", 1), Ok(None)));
    assert!(matches!(parse("\t", 1), Ok(None)));
    assert!(matches!(parse("# a comment", 1), Ok(None)));
    assert!(matches!(parse("    # \"quoted ( [ {", 1), Ok(None)));
    assert!(matches!(parse("# ", 1), Ok(None)));
}

#[test]
fn sentence_span_covers_statements() {
    let (_, line) = parse_ok("a + 12");
    let st = &line.sentence.statements;
    assert_eq!(st.len(), 3);
    assert_eq!(of(&st[0].1), span(0, 1));
    assert_eq!(of(&st[1].1), span(2, 1));
    assert_eq!(of(&st[2].1), span(4, 2));
    assert_eq!(of(&line.sentence.span), span(0, 6));

    let (level, line) = parse_ok("    x  y   ");
    assert_eq!(level, 1);
    assert_eq!(line.sentence.statements.len(), 2);
    assert_eq!(of(&line.sentence.span), span(4, 4));
}

#[test]
fn spans_carry_the_line_number() {
    let (_, line) = parse_ok("abc");
    assert_eq!(line.sentence.span.begin.line, 1);
    let e = match parse("a)", 42) {
        Err(e) => e,
        other => panic!("{:?}", other),
    };
    assert_eq!(e.span.begin.line, 42);
}

#[test]
fn nested_brackets_keep_their_structure() {
    let (_, line) = parse_ok("(a, b, (c, d))");
    let st = &line.sentence.statements;
    assert_eq!(st.len(), 1);
    assert_eq!(of(&st[0].1), span(0, 14));
    assert!(matches!(st[0].0, Statement::Bracket(BracketKind::Round, _)));
    let outer = parts(&st[0].0);
    assert_eq!(outer.len(), 3);
    assert_eq!(of(&outer[0].span), span(1, 1));
    assert_eq!(of(&outer[1].span), span(4, 1));
    let inner = &outer[2].statements;
    assert_eq!(inner.len(), 1);
    assert_eq!(of(&inner[0].1), span(7, 6));
    let inner_parts = parts(&inner[0].0);
    assert_eq!(inner_parts.len(), 2);
    assert!(matches!(&inner_parts[0].statements[0].0, Statement::Chain(c) if *c == chars("c")));
    assert!(matches!(&inner_parts[1].statements[0].0, Statement::Chain(c) if *c == chars("d")));
}

#[test]
fn deep_nesting() {
    let (_, line) = parse_ok("[{(x)}]");
    let a = parts(&line.sentence.statements[0].0);
    assert_eq!(a.len(), 1);
    let b = parts(&a[0].statements[0].0);
    assert_eq!(b.len(), 1);
    let c = parts(&b[0].statements[0].0);
    assert_eq!(c.len(), 1);
    assert!(matches!(&c[0].statements[0].0, Statement::Chain(v) if *v == chars("x")));
    assert!(matches!(line.sentence.statements[0].0, Statement::Bracket(BracketKind::Square, _)));
}

#[test]
fn empty_brackets_have_no_parts() {
    let (_, line) = parse_ok("()");
    assert_eq!(parts(&line.sentence.statements[0].0).len(), 0);
    let (_, line) = parse_ok("( )");
    assert_eq!(parts(&line.sentence.statements[0].0).len(), 0);
}

#[test]
fn trailing_comma_is_an_empty_part() {
    assert_eq!(parse_err("(a, b,)").kind, ErrorKind::EmptyLastPart);
    assert_eq!(parse_err("(,a)").kind, ErrorKind::EmptyLastPart);
    assert_eq!(parse_err("(a,,b)").kind, ErrorKind::EmptyLastPart);
}

#[test]
fn wrong_closing_bracket() {
    let e = parse_err("(a, b]");
    assert_eq!(e.kind, ErrorKind::WrongClosingBracket(BracketKind::Round, BracketKind::Square));
    assert_eq!(of(&e.span), span(3, 2));
    let e = parse_err("{x)");
    assert_eq!(e.kind, ErrorKind::WrongClosingBracket(BracketKind::Curly, BracketKind::Round));
}

#[test]
fn unmatched_closing_bracket() {
    let e = parse_err("a)");
    assert_eq!(e.kind, ErrorKind::UnexpectedClosingBracket);
    assert_eq!(of(&e.span), span(1, 0));
    assert_eq!(parse_err("]").kind, ErrorKind::UnexpectedClosingBracket);
}

#[test]
fn unclosed_bracket() {
    assert_eq!(parse_err("(a, b").kind, ErrorKind::UnclosedBracket);
    assert_eq!(parse_err("(").kind, ErrorKind::UnclosedBracket);
}

#[test]
fn comment_swallows_the_rest() {
    let (_, line) = parse_ok("a # \"b ( ] ) c");
    assert_eq!(line.sentence.statements.len(), 1);
    assert_eq!(of(&line.sentence.span), span(0, 1));
    assert_eq!(parse_err("(a # b)").kind, ErrorKind::UnclosedBracket);
}

#[test]
fn inner_comment_errors() {
    let e = parse_err("#x");
    assert_eq!(e.kind, ErrorKind::ExpectedComment);
    assert_eq!(of(&e.span), span(0, 2));
    let e = parse_err("a #");
    assert_eq!(e.kind, ErrorKind::InnerAtEnd);
    assert_eq!(of(&e.span), span(2, 1));
}

#[test]
fn unexpected_symbols() {
    let e = parse_err(".a");
    assert_eq!(e.kind, ErrorKind::UnexpectedSymbol('.'));
    assert_eq!(of(&e.span), span(0, 0));
    assert_eq!(parse_err("a , b").kind, ErrorKind::UnexpectedSymbol(','));
    assert_eq!(parse_err("a `").kind, ErrorKind::UnexpectedSymbol('`'));
    assert_eq!(parse_err("(a `)").kind, ErrorKind::UnexpectedSymbol('`'));
}

#[test]
fn string_literals() {
    let (_, line) = parse_ok("\"hi (there)\" x");
    let st = &line.sentence.statements;
    assert!(matches!(&st[0].0, Statement::LitString(v) if *v == chars("hi (there)")));
    assert_eq!(of(&st[0].1), span(0, 12));
    let e = parse_err("    \"abc");
    assert_eq!(e.kind, ErrorKind::UnterminatedString);
    let e = parse_err("x \"abc");
    assert_eq!(of(&e.span), span(2, 4));
}

#[test]
fn integer_literals() {
    let (_, line) = parse_ok("123 0");
    let st = &line.sentence.statements;
    assert!(matches!(st[0].0, Statement::LitInt(123)));
    assert!(matches!(st[1].0, Statement::LitInt(0)));
    let (_, line) = parse_ok("18446744073709551615");
    assert!(matches!(line.sentence.statements[0].0, Statement::LitInt(18446744073709551615)));
    let e = parse_err("18446744073709551616");
    assert_eq!(e.kind, ErrorKind::IntegerOverflow);
    assert_eq!(of(&e.span), span(0, 20));
    let (_, line) = parse_ok("12ab");
    assert_eq!(line.sentence.statements.len(), 2);
}

#[test]
fn identifier_chains_and_specials() {
    let (_, line) = parse_ok("foo.bar_2 := x1");
    let st = &line.sentence.statements;
    assert!(matches!(&st[0].0, Statement::Chain(v) if *v == chars("foo.bar_2")));
    assert!(matches!(&st[1].0, Statement::Special(v) if *v == chars(":=")));
    assert!(matches!(&st[2].0, Statement::Chain(v) if *v == chars("x1")));
    let e = parse_err("foo.");
    assert_eq!(e.kind, ErrorKind::ChainEndsWithDot);
    assert_eq!(of(&e.span), span(0, 4));
}

#[test]
fn parsing_twice_gives_the_same_result() {
    for text in ["(a, b, (c, d)) # x", "  x", "a)", "    \"s\" 12 + [y]"] {
        let first = format!("{:?}", parse(text, 9));
        let second = format!("{:?}", parse(text, 9));
        assert_eq!(first, second);
    }
}

#[test]
fn classifier_categories() {
    assert_eq!(classify(None), SymbolType::EndOfStream);
    assert_eq!(classify(Some('\n')), SymbolType::NewLine);
    assert_eq!(classify(Some(' ')), SymbolType::Whitespace(1));
    assert_eq!(classify(Some('\t')), SymbolType::Whitespace(4));
    assert_eq!(classify(Some('.')), SymbolType::Dot);
    assert_eq!(classify(Some(',')), SymbolType::Comma);
    assert_eq!(classify(Some('"')), SymbolType::Quote);
    assert_eq!(classify(Some('Q')), SymbolType::Letter);
    assert_eq!(classify(Some('7')), SymbolType::Digit);
    assert_eq!(classify(Some('=')), SymbolType::Special);
    assert_eq!(classify(Some('#')), SymbolType::Inner);
    assert_eq!(classify(Some('[')), SymbolType::Bracket(BracketKind::Square, true));
    assert_eq!(classify(Some('}')), SymbolType::Bracket(BracketKind::Curly, false));
    assert_eq!(classify(Some('é')), SymbolType::Other);
}

#[test]
fn non_ascii_text_is_counted_in_characters() {
    let (_, line) = parse_ok("\"héllo\" x");
    assert_eq!(of(&line.sentence.statements[1].1), span(8, 1));
}

#[test]
fn error_messages() {
    assert_eq!(ErrorKind::Indentation.message(), "offset is not divisible by 4");
    assert_eq!(parse_err("(a, b,)").kind.message(), "empty last part");
    assert_eq!(parse_err("(a]").kind.message(), "wrong closing bracket");
    assert_eq!(parse_err("a)").kind.message(), "unexpected closing bracket");
    assert_eq!(parse_err("#!").kind.message(), "expected comment");
    assert_eq!(parse_err("#").kind.message(), "`inner` on the end of the line");
    assert_eq!(parse_err(";,").kind.message(), "unexpected symbol");
}

#[test]
fn parser_continues_from_its_cursor() {
    let mut p = Parser::new("x", 3);
    assert!(matches!(p.parse(), Ok(Some(_))));
    assert!(matches!(p.parse(), Ok(None)));
}
