//! The meaning of parsing one line, as functions over its characters.
//!
//! Indices count characters from the start of the line; a position in the
//! line is the number of characters before it.

use vstd::prelude::*;

use crate::ast::{BracketKind, Error, ErrorKind, LineModel, Position, SentenceModel, Span, StatementModel};
use crate::symbol::{is_digit_char, is_letter_char, is_special_char, symbol_of, SymbolType};

verus! {

/// The character at `i`, or `None` past either end.
pub open spec fn char_at(s: Seq<char>, i: int) -> Option<char> {
    if 0 <= i < s.len() {
        Some(s[i])
    } else {
        None
    }
}

pub open spec fn sym_at(s: Seq<char>, i: int) -> SymbolType {
    symbol_of(char_at(s, i))
}

pub open spec fn no_newline(s: Seq<char>) -> bool {
    forall|k: int| 0 <= k < s.len() ==> s[k] != '\n'
}

/// The kinds of maximal character runs that a scan consumes.
#[derive(Clone, Copy, Debug, PartialEq, Eq, Structural)]
pub enum Run {
    Blank,
    Digits,
    Chain,
    Specials,
    StringBody,
}

pub open spec fn in_run(r: Run, c: char) -> bool {
    match r {
        Run::Blank => c == ' ' || c == '\t',
        Run::Digits => is_digit_char(c),
        Run::Chain => is_letter_char(c) || is_digit_char(c) || c == '.',
        Run::Specials => is_special_char(c),
        Run::StringBody => c != '"',
    }
}

/// The end of the maximal run of kind `r` that starts at `i`.
pub open spec fn run_end(s: Seq<char>, i: int, r: Run) -> int
    decreases s.len() - i,
{
    if 0 <= i < s.len() && in_run(r, s[i]) {
        run_end(s, i + 1, r)
    } else {
        i
    }
}

/// A run ends within the line, and every character before its end is in it.
pub proof fn lemma_run_end(s: Seq<char>, i: int, r: Run)
    requires
        0 <= i <= s.len(),
    ensures
        i <= run_end(s, i, r) <= s.len(),
        forall|j: int| i <= j < run_end(s, i, r) ==> in_run(r, #[trigger] s[j]),
        run_end(s, i, r) < s.len() ==> !in_run(r, s[run_end(s, i, r)]),
        i < s.len() && in_run(r, s[i]) ==> run_end(s, i, r) > i,
    decreases s.len() - i,
{
    if i < s.len() && in_run(r, s[i]) {
        lemma_run_end(s, i + 1, r);
    }
}

/// Total width in columns of the whitespace run that starts at `i`.
pub open spec fn blank_width(s: Seq<char>, i: int) -> int
    decreases s.len() - i,
{
    if 0 <= i < s.len() && in_run(Run::Blank, s[i]) {
        (if s[i] == '\t' { 4int } else { 1int }) + blank_width(s, i + 1)
    } else {
        0
    }
}

/// The value of a sequence of decimal digits.
pub open spec fn digits_value(d: Seq<char>) -> int
    decreases d.len(),
{
    if d.len() == 0 {
        0
    } else {
        digits_value(d.drop_last()) * 10 + (d.last() as int - '0' as int)
    }
}

pub open spec fn span_of(line: u16, begin: int, len: int) -> Span {
    Span { begin: Position { line, offset: begin as usize }, len: len as usize }
}

/// What an atomic scan yields, and where it stops.
pub type Scan = (Result<StatementModel, ErrorKind>, int);

/// A string literal: from the quote at `i` through the next quote.
pub open spec fn scan_string(s: Seq<char>, i: int) -> Scan {
    let k = run_end(s, i + 1, Run::StringBody);
    if k < s.len() {
        (Ok(StatementModel::LitString(s.subrange(i + 1, k))), k + 1)
    } else {
        (Err(ErrorKind::UnterminatedString), k)
    }
}

/// An integer literal: the maximal run of digits at `i`.
pub open spec fn scan_int(s: Seq<char>, i: int) -> Scan {
    let e = run_end(s, i, Run::Digits);
    let v = digits_value(s.subrange(i, e));
    if v > u64::MAX {
        (Err(ErrorKind::IntegerOverflow), e)
    } else {
        (Ok(StatementModel::LitInt(v as u64)), e)
    }
}

/// An identifier chain: the maximal run of letters, digits and dots at `i`,
/// which may not end with a dot.
pub open spec fn scan_chain(s: Seq<char>, i: int) -> Scan {
    let e = run_end(s, i, Run::Chain);
    if s[e - 1] == '.' {
        (Err(ErrorKind::ChainEndsWithDot), e)
    } else {
        (Ok(StatementModel::Chain(s.subrange(i, e))), e)
    }
}

/// A run of operator characters at `i`.
pub open spec fn scan_special(s: Seq<char>, i: int) -> Scan {
    let e = run_end(s, i, Run::Specials);
    (Ok(StatementModel::Special(s.subrange(i, e))), e)
}

/// A scan begun at `i`, its failure pointed at what it consumed.
pub open spec fn lift_scan(line: u16, i: int, r: Scan) -> Result<(StatementModel, int), Error> {
    match r.0 {
        Ok(m) => Ok((m, r.1)),
        Err(k) => Err(Error { kind: k, span: span_of(line, i, r.1 - i) }),
    }
}

/// The span from the first statement's start to the last one's end.
pub open spec fn cover(v: Seq<(StatementModel, Span)>) -> Span {
    Span {
        begin: v[0].1.begin,
        len: (v.last().1.begin.offset + v.last().1.len - v[0].1.begin.offset) as usize,
    }
}

/// The spans of `v` lie in `[lo, hi)`, in order and without overlap.
pub open spec fn spans_ordered(v: Seq<(StatementModel, Span)>, lo: int, hi: int) -> bool {
    &&& forall|j: int|
        0 <= j < v.len() ==> lo <= (#[trigger] v[j]).1.begin.offset && v[j].1.begin.offset
            + v[j].1.len <= hi
    &&& forall|j: int, l: int|
        0 <= j < l < v.len() ==> (#[trigger] v[j]).1.begin.offset + v[j].1.len <= (
        #[trigger] v[l]).1.begin.offset
}

pub open spec fn close_sentence(v: Seq<(StatementModel, Span)>) -> SentenceModel {
    SentenceModel { statements: v, span: cover(v) }
}

/// Keeps a statement unless it is `Nothing`.
pub open spec fn keep(
    acc: Seq<(StatementModel, Span)>,
    m: StatementModel,
    sp: Span,
) -> Seq<(StatementModel, Span)> {
    if m is Nothing {
        acc
    } else {
        acc.push((m, sp))
    }
}

/// One statement starting at `i`: what it is and where it ends, or the error.
///
/// Callers ask only inside the line; the first branch, like the checks that
/// a statement moved forward in the functions below, keeps the recursion
/// well founded.
pub open spec fn statement(s: Seq<char>, line: u16, i: int) -> Result<(StatementModel, int), Error>
    decreases s.len() - i, 0int,
{
    if !(0 <= i < s.len()) {
        Err(Error { kind: ErrorKind::UnclosedBracket, span: span_of(line, i, 0) })
    } else {
        match sym_at(s, i) {
            SymbolType::Whitespace(_) => Ok((StatementModel::Nothing, run_end(s, i, Run::Blank))),
            SymbolType::Quote => lift_scan(line, i, scan_string(s, i)),
            SymbolType::Letter => lift_scan(line, i, scan_chain(s, i)),
            SymbolType::Digit => lift_scan(line, i, scan_int(s, i)),
            SymbolType::Special => lift_scan(line, i, scan_special(s, i)),
            SymbolType::Inner => if i + 1 >= s.len() {
                Err(Error { kind: ErrorKind::InnerAtEnd, span: span_of(line, i, 1) })
            } else if s[i + 1] == ' ' {
                Ok((StatementModel::Nothing, s.len() as int))
            } else {
                Err(Error { kind: ErrorKind::ExpectedComment, span: span_of(line, i, 2) })
            },
            SymbolType::Bracket(k, true) => group(s, line, k, i + 1, Seq::empty(), Seq::empty(), i + 1),
            SymbolType::Bracket(_, false) => Err(
                Error { kind: ErrorKind::UnexpectedClosingBracket, span: span_of(line, i, 0) },
            ),
            _ => Err(Error { kind: ErrorKind::UnexpectedSymbol(s[i]), span: span_of(line, i, 0) }),
        }
    }
}

/// The rest of a bracket group of kind `k` from `i`, with the parts closed so
/// far, the statements of the part in progress, and where that part began.
pub open spec fn group(
    s: Seq<char>,
    line: u16,
    k: BracketKind,
    i: int,
    parts: Seq<SentenceModel>,
    sent: Seq<(StatementModel, Span)>,
    sent_pos: int,
) -> Result<(StatementModel, int), Error>
    decreases s.len() - i, 1int,
{
    if !(0 <= i < s.len()) {
        Err(Error { kind: ErrorKind::UnclosedBracket, span: span_of(line, sent_pos, i - sent_pos) })
    } else {
        match sym_at(s, i) {
            SymbolType::Bracket(ck, false) => if ck != k {
                Err(
                    Error {
                        kind: ErrorKind::WrongClosingBracket(k, ck),
                        span: span_of(line, sent_pos, i - sent_pos),
                    },
                )
            } else if sent.len() != 0 {
                Ok((StatementModel::Bracket(k, parts.push(close_sentence(sent))), i + 1))
            } else if parts.len() == 0 {
                Ok((StatementModel::Bracket(k, parts), i + 1))
            } else {
                Err(
                    Error {
                        kind: ErrorKind::EmptyLastPart,
                        span: span_of(line, sent_pos, i - sent_pos),
                    },
                )
            },
            SymbolType::Comma => if sent.len() == 0 {
                Err(
                    Error {
                        kind: ErrorKind::EmptyLastPart,
                        span: span_of(line, sent_pos, i + 1 - sent_pos),
                    },
                )
            } else {
                group(s, line, k, i + 1, parts.push(close_sentence(sent)), Seq::empty(), i + 1)
            },
            _ => match statement(s, line, i) {
                Err(e) => Err(e),
                Ok((m, j)) => if j <= i || j > s.len() {
                    Err(Error { kind: ErrorKind::UnclosedBracket, span: span_of(line, i, 0) })
                } else {
                    group(s, line, k, j, parts, keep(sent, m, span_of(line, i, j - i)), sent_pos)
                },
            },
        }
    }
}

/// The statements of the line from `i` on, after those in `acc`.
pub open spec fn statements_from(
    s: Seq<char>,
    line: u16,
    i: int,
    acc: Seq<(StatementModel, Span)>,
) -> Result<Seq<(StatementModel, Span)>, Error>
    decreases s.len() - i, 2int,
{
    if !(0 <= i < s.len()) {
        Ok(acc)
    } else {
        match statement(s, line, i) {
            Err(e) => Err(e),
            Ok((m, j)) => if j <= i || j > s.len() {
                Ok(acc)
            } else {
                statements_from(s, line, j, keep(acc, m, span_of(line, i, j - i)))
            },
        }
    }
}

/// The result of parsing the line `s` numbered `line` from position `start`.
pub open spec fn parse_line(s: Seq<char>, line: u16, start: int) -> Result<
    Option<(u8, LineModel)>,
    Error,
> {
    let e = run_end(s, start, Run::Blank);
    let w = blank_width(s, start);
    if w % 4 != 0 {
        Err(Error { kind: ErrorKind::Indentation, span: span_of(line, start, e - start) })
    } else {
        match statements_from(s, line, e, Seq::empty()) {
            Err(err) => Err(err),
            Ok(st) => if st.len() == 0 {
                Ok(None)
            } else {
                Ok(Some(((w / 4) as u8, LineModel { sentence: close_sentence(st) })))
            },
        }
    }
}

} // verus!
