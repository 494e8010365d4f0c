//! What holds of every parse, proved over the model of the grammar.

use vstd::prelude::*;

use crate::ast::{BracketKind, Error, ErrorKind, Line, LineModel, SentenceModel, Span, StatementModel};
use crate::grammar::{
    blank_width, close_sentence, cover, group, in_run, keep, lemma_run_end, parse_line, run_end, span_of,
    spans_ordered, statement, statements_from, sym_at, Run,
};
use crate::parser::outcome_model;
use crate::symbol::SymbolType;

verus! {

/// A blank run that stops at `e` ends at `e`.
proof fn lemma_blank_run_to(s: Seq<char>, i: int, e: int)
    requires
        0 <= i <= e <= s.len(),
        forall|k: int| i <= k < e ==> in_run(Run::Blank, #[trigger] s[k]),
        e == s.len() || !in_run(Run::Blank, s[e]),
    ensures
        run_end(s, i, Run::Blank) == e,
    decreases e - i,
{
    if i < e {
        lemma_blank_run_to(s, i + 1, e);
    }
}

/// A line whose leading whitespace is not a multiple of four columns wide
/// fails with the indentation error, whose span is exactly that whitespace.
pub proof fn theorem_misaligned_indentation(s: Seq<char>, line: u16)
    requires
        blank_width(s, 0) % 4 != 0,
    ensures
        parse_line(s, line, 0) == Err::<Option<(u8, LineModel)>, Error>(
            Error { kind: ErrorKind::Indentation, span: span_of(line, 0, run_end(s, 0, Run::Blank)) },
        ),
{
}

/// A line made of whitespace only, or of whitespace and then a comment
/// (`#`, a space and any text), has no statements, when its indentation is
/// a multiple of four columns.
pub proof fn theorem_blank_or_comment_line(s: Seq<char>, line: u16, e: int)
    requires
        0 <= e <= s.len(),
        forall|k: int| 0 <= k < e ==> in_run(Run::Blank, #[trigger] s[k]),
        e == s.len() || (e + 1 < s.len() && s[e] == '#' && s[e + 1] == ' '),
        blank_width(s, 0) % 4 == 0,
    ensures
        parse_line(s, line, 0) == Ok::<Option<(u8, LineModel)>, Error>(None),
{
    lemma_blank_run_to(s, 0, e);
    if e < s.len() {
        theorem_comment_consumes_rest(s, line, e, Seq::empty());
    }
}

/// A comment (`#`, a space and any text, quotes and brackets included)
/// consumes the rest of the line and yields no statement: the statements
/// found before it are the line's statements.
pub proof fn theorem_comment_consumes_rest(
    s: Seq<char>,
    line: u16,
    i: int,
    acc: Seq<(StatementModel, Span)>,
)
    requires
        0 <= i,
        i + 1 < s.len(),
        s[i] == '#',
        s[i + 1] == ' ',
    ensures
        statement(s, line, i) == Ok::<(StatementModel, int), Error>((StatementModel::Nothing, s.len() as int)),
        statements_from(s, line, i, acc) == Ok::<Seq<(StatementModel, Span)>, Error>(acc),
{
    assert(statement(s, line, i) == Ok::<(StatementModel, int), Error>((StatementModel::Nothing, s.len() as int)));
    assert(keep(acc, StatementModel::Nothing, span_of(line, i, s.len() - i)) == acc);
    assert(statements_from(s, line, s.len() as int, acc) == Ok::<Seq<(StatementModel, Span)>, Error>(acc));
}

/// The statements that the line yields from `i` on extend `acc`, and their
/// spans stay in order, without overlap, up to the end of the line.
proof fn lemma_statements_ordered(
    s: Seq<char>,
    line: u16,
    i: int,
    acc: Seq<(StatementModel, Span)>,
    lo: int,
)
    requires
        0 <= lo <= i <= s.len() <= usize::MAX,
        spans_ordered(acc, lo, i),
    ensures
        statements_from(s, line, i, acc) is Ok ==> {
            let v = statements_from(s, line, i, acc)->Ok_0;
            &&& spans_ordered(v, lo, s.len() as int)
            &&& v.len() >= acc.len()
            &&& v.subrange(0, acc.len() as int) == acc
        },
    decreases s.len() - i,
{
    if 0 <= i < s.len() {
        match statement(s, line, i) {
            Err(_) => {},
            Ok((m, j)) => {
                if !(j <= i || j > s.len()) {
                    let next = keep(acc, m, span_of(line, i, j - i));
                    assert(spans_ordered(next, lo, j));
                    lemma_statements_ordered(s, line, j, next, lo);
                    if statements_from(s, line, j, next) is Ok {
                        let v = statements_from(s, line, j, next)->Ok_0;
                        assert(v.subrange(0, acc.len() as int) =~= next.subrange(0, acc.len() as int));
                        assert(next.subrange(0, acc.len() as int) =~= acc);
                    }
                }
            },
        }
    } else {
        assert(acc.subrange(0, acc.len() as int) =~= acc);
    }
}

/// The span of a parsed line runs from its first statement's start to its
/// last statement's end, and holds every statement's span, in order and
/// without overlap.
pub proof fn theorem_line_span_covers_statements(s: Seq<char>, line: u16, level: u8, l: LineModel)
    requires
        s.len() <= usize::MAX,
        parse_line(s, line, 0) == Ok::<Option<(u8, LineModel)>, Error>(Some((level, l))),
    ensures
        ({
            let v = l.sentence.statements;
            let sp = l.sentence.span;
            &&& v.len() > 0
            &&& sp == cover(v)
            &&& sp.begin == v[0].1.begin
            &&& sp.begin.offset + sp.len == v.last().1.begin.offset + v.last().1.len
            &&& spans_ordered(v, sp.begin.offset as int, sp.begin.offset + sp.len)
        }),
{
    let e = run_end(s, 0, Run::Blank);
    lemma_run_end(s, 0, Run::Blank);
    lemma_statements_ordered(s, line, e, Seq::empty(), e);
    let v = l.sentence.statements;
    assert(v.len() > 0);
    if v.len() > 1 {
        assert(v[0].1.begin.offset + v[0].1.len <= v[v.len() - 1].1.begin.offset);
    }
    assert(v[v.len() - 1] == v.last());
}

/// The rest of a bracket group of kind `k`, when it parses, yields a bracket
/// statement of kind `k` and ends just after a closer of that kind.
proof fn lemma_group_closed(
    s: Seq<char>,
    line: u16,
    k: BracketKind,
    i: int,
    parts: Seq<SentenceModel>,
    sent: Seq<(StatementModel, Span)>,
    sent_pos: int,
)
    ensures
        group(s, line, k, i, parts, sent, sent_pos) is Ok ==> {
            let (m, j) = group(s, line, k, i, parts, sent, sent_pos)->Ok_0;
            &&& m is Bracket
            &&& m->Bracket_0 == k
            &&& i < j <= s.len()
            &&& sym_at(s, j - 1) == SymbolType::Bracket(k, false)
        },
    decreases s.len() - i,
{
    if 0 <= i < s.len() {
        match sym_at(s, i) {
            SymbolType::Bracket(_, false) => {},
            SymbolType::Comma => {
                if sent.len() != 0 {
                    lemma_group_closed(s, line, k, i + 1, parts.push(close_sentence(sent)), Seq::empty(), i + 1);
                }
            },
            _ => match statement(s, line, i) {
                Err(_) => {},
                Ok((m, j)) => {
                    if !(j <= i || j > s.len()) {
                        lemma_group_closed(s, line, k, j, parts, keep(sent, m, span_of(line, i, j - i)), sent_pos);
                    }
                },
            },
        }
    }
}

/// A statement that starts with an opening bracket, at any depth of
/// nesting, is a bracket statement of that family which ends with the
/// matching closer.
pub proof fn theorem_bracket_round_trip(s: Seq<char>, line: u16, i: int, k: BracketKind)
    requires
        0 <= i < s.len(),
        sym_at(s, i) == SymbolType::Bracket(k, true),
        statement(s, line, i) is Ok,
    ensures
        ({
            let (m, j) = statement(s, line, i)->Ok_0;
            &&& m is Bracket
            &&& m->Bracket_0 == k
            &&& i + 1 < j <= s.len()
            &&& sym_at(s, j - 1) == SymbolType::Bracket(k, false)
        }),
{
    lemma_group_closed(s, line, k, i + 1, Seq::empty(), Seq::empty(), i + 1);
}

/// In a bracket group, a comma directly followed by the group's closer fails
/// with the empty-part error, whatever came before it.
pub proof fn theorem_trailing_comma(
    s: Seq<char>,
    line: u16,
    k: BracketKind,
    i: int,
    parts: Seq<SentenceModel>,
    sent: Seq<(StatementModel, Span)>,
    sent_pos: int,
)
    requires
        0 <= i,
        i + 1 < s.len(),
        s[i] == ',',
        sym_at(s, i + 1) == SymbolType::Bracket(k, false),
    ensures
        group(s, line, k, i, parts, sent, sent_pos) is Err,
        group(s, line, k, i, parts, sent, sent_pos)->Err_0.kind == ErrorKind::EmptyLastPart,
{
    if sent.len() != 0 {
        let next = parts.push(close_sentence(sent));
        assert(group(s, line, k, i + 1, next, Seq::empty(), i + 1) == Err::<(StatementModel, int), Error>(
            Error { kind: ErrorKind::EmptyLastPart, span: span_of(line, i + 1, 0) },
        ));
    }
}

/// In a bracket group, a closer of another family fails with the mismatch
/// error, which names the open family and the one found, and points at the
/// part in progress.
pub proof fn theorem_wrong_closer(
    s: Seq<char>,
    line: u16,
    k: BracketKind,
    found: BracketKind,
    i: int,
    parts: Seq<SentenceModel>,
    sent: Seq<(StatementModel, Span)>,
    sent_pos: int,
)
    requires
        0 <= i < s.len(),
        sym_at(s, i) == SymbolType::Bracket(found, false),
        found != k,
    ensures
        group(s, line, k, i, parts, sent, sent_pos) == Err::<(StatementModel, int), Error>(
            Error {
                kind: ErrorKind::WrongClosingBracket(k, found),
                span: span_of(line, sent_pos, i - sent_pos),
            },
        ),
{
}

/// Outside every bracket group, a closing bracket fails the line with the
/// unexpected-closing-bracket error at its place.
pub proof fn theorem_stray_closer(
    s: Seq<char>,
    line: u16,
    found: BracketKind,
    i: int,
    acc: Seq<(StatementModel, Span)>,
)
    requires
        0 <= i < s.len(),
        sym_at(s, i) == SymbolType::Bracket(found, false),
    ensures
        statements_from(s, line, i, acc) == Err::<Seq<(StatementModel, Span)>, Error>(
            Error { kind: ErrorKind::UnexpectedClosingBracket, span: span_of(line, i, 0) },
        ),
{
}

/// Parsing is a function of the line's text and number: two parses of the
/// same line give results of equal value.
pub proof fn theorem_parse_deterministic(
    s: Seq<char>,
    line: u16,
    r1: Result<Option<(u8, Line)>, Error>,
    r2: Result<Option<(u8, Line)>, Error>,
)
    requires
        outcome_model(r1) == parse_line(s, line, 0),
        outcome_model(r2) == parse_line(s, line, 0),
    ensures
        outcome_model(r1) == outcome_model(r2),
{
}

} // verus!
