//! The line parser: indentation, statement dispatch, comments and bracket
//! groups.

use vstd::prelude::*;

use crate::ast::{
    lemma_bracket_model, lemma_sentence_model, pairs_model, sentences_model, BracketKind, Error,
    ErrorKind, Line, LineModel, Position, Sentence, Span, Statement, StatementModel,
};
use crate::grammar::{
    blank_width, cover, group, lemma_run_end, no_newline, parse_line, run_end, span_of,
    spans_ordered, statement, statements_from, Run,
};
use crate::stream::Stream;
use crate::symbol::{classify, SymbolType};
use crate::unit::{chain, integer, special, string_lit};

verus! {

/// The value of a parse result in the model.
pub open spec fn outcome_model(r: Result<Option<(u8, Line)>, Error>) -> Result<
    Option<(u8, LineModel)>,
    Error,
> {
    match r {
        Ok(None) => Ok(None),
        Ok(Some((level, l))) => Ok(Some((level, l.model()))),
        Err(e) => Err(e),
    }
}

/// The span from the first statement's start to the last one's end.
fn cover_span(v: &Vec<(Statement, Span)>, Ghost(lo): Ghost<int>, Ghost(hi): Ghost<int>) -> (r: Span)
    requires
        v@.len() > 0,
        spans_ordered(pairs_model(v@), lo, hi),
        0 <= lo,
        hi <= usize::MAX,
    ensures
        r == cover(pairs_model(v@)),
{
    let first = v[0].1;
    let last = v[v.len() - 1].1;
    let ghost m = pairs_model(v@);
    assert(m[0].1 == first);
    assert(m.last().1 == last);
    assert(m[m.len() - 1] == m.last());
    if v.len() > 1 {
        assert(m[0].1.begin.offset + m[0].1.len <= m[m.len() - 1].1.begin.offset);
    }
    Span { begin: first.begin, len: last.begin.offset + last.len - first.begin.offset }
}

/// Parses one line of source, given with its line number.
pub struct Parser {
    chars: Stream,
    line: u16,
}

impl Parser {
    /// The characters of the line.
    pub closed spec fn text(&self) -> Seq<char> {
        self.chars.text()
    }

    /// How many characters have been consumed.
    pub closed spec fn cursor(&self) -> int {
        self.chars.cursor()
    }

    pub closed spec fn line_number(&self) -> u16 {
        self.line
    }

    pub open spec fn wf(&self) -> bool {
        0 <= self.cursor() <= self.text().len() <= usize::MAX
    }

    pub fn new(line: &str, line_num: u16) -> (r: Self)
        ensures
            r.wf(),
            r.text() == line@,
            r.cursor() == 0,
            r.line_number() == line_num,
    {
        Parser { chars: Stream::new(line), line: line_num }
    }

    /// Parses the line from the cursor on: `None` when it holds no statement,
    /// else the indentation level and the statements. The line holds no
    /// newline, and its leading whitespace is under 1024 columns wide, so
    /// that the level fits in a `u8`.
    pub fn parse(&mut self) -> (r: Result<Option<(u8, Line)>, Error>)
        requires
            old(self).wf(),
            no_newline(old(self).text()),
            blank_width(old(self).text(), old(self).cursor()) < 1024,
        ensures
            final(self).wf(),
            final(self).text() == old(self).text(),
            final(self).line_number() == old(self).line_number(),
            outcome_model(r) == parse_line(old(self).text(), old(self).line_number(), old(self).cursor()),
    {
        let ghost s = self.text();
        let ghost ln = self.line;
        let start = self.chars.taken();
        let width = self.parse_whitespace();
        let shift_end = self.chars.taken();
        proof {
            lemma_run_end(s, old(self).cursor(), Run::Blank);
        }
        if width % 4 != 0 {
            return Err(
                Error {
                    kind: ErrorKind::Indentation,
                    span: self.span_at(start, shift_end - start),
                },
            );
        }
        let level = (width / 4) as u8;
        let mut statements: Vec<(Statement, Span)> = Vec::new();
        assert(pairs_model(statements@) =~= Seq::empty());
        loop
            invariant
                self.wf(),
                self.text() == s,
                self.line == ln,
                s == old(self).text(),
                ln == old(self).line,
                no_newline(s),
                shift_end <= self.cursor(),
                shift_end == run_end(s, old(self).cursor(), Run::Blank),
                width == blank_width(s, old(self).cursor()),
                width % 4 == 0,
                level == width / 4,
                spans_ordered(pairs_model(statements@), shift_end as int, self.cursor()),
                statements_from(s, ln, self.cursor(), pairs_model(statements@)) == statements_from(
                    s,
                    ln,
                    shift_end as int,
                    Seq::empty(),
                ),
            ensures
                self.cursor() == s.len(),
            decreases s.len() - self.cursor(),
        {
            if self.chars.peek().is_none() {
                break ;
            }
            let ghost i = self.cursor();
            let ghost before = pairs_model(statements@);
            match self.parse_statement() {
                Err(e) => {
                    return Err(e);
                },
                Ok((st, sp)) => {
                    if !matches!(st, Statement::Nothing) {
                        statements.push((st, sp));
                        assert(pairs_model(statements@) =~= before.push((st.model(), sp)));
                    }
                },
            }
        }
        assert(self.cursor() == s.len());
        assert(statements_from(s, ln, self.cursor(), pairs_model(statements@)) == Ok::<_, Error>(pairs_model(statements@)));
        if statements.len() == 0 {
            return Ok(None);
        }
        let span = cover_span(&statements, Ghost(shift_end as int), Ghost(self.cursor()));
        proof {
            lemma_sentence_model(statements, span);
        }
        Ok(Some((level, Line { sentence: Sentence { statements, span } })))
    }

    /// The span of `len` characters from `offset` on this parser's line.
    fn span_at(&self, offset: usize, len: usize) -> (r: Span)
        ensures
            r == (Span { begin: Position { line: self.line, offset }, len }),
    {
        Span { begin: Position { line: self.line, offset }, len }
    }

    /// Skips a run of whitespace and returns its width in columns.
    fn parse_whitespace(&mut self) -> (r: usize)
        requires
            old(self).wf(),
        ensures
            final(self).wf(),
            final(self).text() == old(self).text(),
            final(self).line_number() == old(self).line_number(),
            final(self).cursor() == run_end(old(self).text(), old(self).cursor(), Run::Blank),
            r == if blank_width(old(self).text(), old(self).cursor()) <= usize::MAX {
                blank_width(old(self).text(), old(self).cursor())
            } else {
                usize::MAX as int
            },
    {
        let ghost s = self.text();
        let ghost c0 = self.cursor();
        let ghost mut acc: int = 0;
        let mut offset: usize = 0;
        loop
            invariant
                self.wf(),
                self.text() == s,
                self.line == old(self).line,
                s == old(self).text(),
                c0 == old(self).cursor(),
                run_end(s, self.cursor(), Run::Blank) == run_end(s, c0, Run::Blank),
                acc + blank_width(s, self.cursor()) == blank_width(s, c0),
                0 <= acc,
                offset == if acc <= usize::MAX { acc } else { usize::MAX as int },
            decreases s.len() - self.cursor(),
        {
            match classify(self.chars.peek()) {
                SymbolType::Whitespace(w) => {
                    proof {
                        acc = acc + w;
                    }
                    offset = offset.saturating_add(w);
                    self.chars.next();
                },
                _ => {
                    return offset;
                },
            }
        }
    }

    /// One statement at the cursor, with the span of what it consumed.
    fn parse_statement(&mut self) -> (r: Result<(Statement, Span), Error>)
        requires
            old(self).wf(),
            old(self).cursor() < old(self).text().len(),
            no_newline(old(self).text()),
        ensures
            final(self).wf(),
            final(self).text() == old(self).text(),
            final(self).line_number() == old(self).line_number(),
            match r {
                Ok((st, sp)) => {
                    &&& statement(old(self).text(), old(self).line_number(), old(self).cursor())
                        == Ok::<_, Error>((st.model(), final(self).cursor()))
                    &&& sp == span_of(
                        old(self).line_number(),
                        old(self).cursor(),
                        final(self).cursor() - old(self).cursor(),
                    )
                    &&& old(self).cursor() < final(self).cursor()
                },
                Err(e) => statement(old(self).text(), old(self).line_number(), old(self).cursor())
                    == Err::<(StatementModel, int), Error>(e),
            },
        decreases old(self).text().len() - old(self).cursor(), 1int,
    {
        let ghost s = self.text();
        let ghost i = self.cursor();
        let start = self.chars.taken();
        let c = match self.chars.peek() {
            Some(c) => c,
            None => {
                return Err(
                    Error {
                        kind: ErrorKind::UnclosedBracket,
                        span: self.span_at(start, 0),
                    },
                );
            },
        };
        proof {
            lemma_run_end(s, i, Run::Blank);
            lemma_run_end(s, i, Run::Chain);
            lemma_run_end(s, i, Run::Digits);
            lemma_run_end(s, i, Run::Specials);
            lemma_run_end(s, i + 1, Run::StringBody);
        }
        let result = match classify(Some(c)) {
            SymbolType::Whitespace(_) => {
                self.parse_whitespace();
                Ok(Statement::Nothing)
            },
            SymbolType::Quote => string_lit(&mut self.chars),
            SymbolType::Letter => chain(&mut self.chars),
            SymbolType::Digit => integer(&mut self.chars),
            SymbolType::Special => special(&mut self.chars),
            SymbolType::Inner => self.parse_inner(),
            SymbolType::Bracket(k, true) => {
                return match self.parse_bracket(k) {
                    Ok(st) => {
                        let size = self.chars.taken() - start;
                        Ok((st, self.span_at(start, size)))
                    },
                    Err(e) => Err(e),
                };
            },
            SymbolType::Bracket(_, false) => Err(ErrorKind::UnexpectedClosingBracket),
            _ => Err(ErrorKind::UnexpectedSymbol(c)),
        };
        let size = self.chars.taken() - start;
        let span = self.span_at(start, size);
        match result {
            Ok(st) => Ok((st, span)),
            Err(kind) => Err(Error { kind, span }),
        }
    }

    /// A bracket group of kind `k`: comma-separated parts up to the matching
    /// closer. The cursor stands on the opener.
    fn parse_bracket(&mut self, k: BracketKind) -> (r: Result<Statement, Error>)
        requires
            old(self).wf(),
            old(self).cursor() < old(self).text().len(),
            no_newline(old(self).text()),
        ensures
            final(self).wf(),
            final(self).text() == old(self).text(),
            final(self).line_number() == old(self).line_number(),
            ({
                let g = group(
                    old(self).text(),
                    old(self).line_number(),
                    k,
                    old(self).cursor() + 1,
                    Seq::empty(),
                    Seq::empty(),
                    old(self).cursor() + 1,
                );
                match r {
                    Ok(st) => g == Ok::<_, Error>((st.model(), final(self).cursor()))
                        && old(self).cursor() < final(self).cursor(),
                    Err(e) => g == Err::<(StatementModel, int), Error>(e),
                }
            }),
        decreases old(self).text().len() - old(self).cursor(), 0int,
    {
        let ghost s = self.text();
        let ghost ln = self.line;
        let ghost c0 = self.cursor();
        self.chars.next();
        let mut parts: Vec<Sentence> = Vec::new();
        let mut sent: Vec<(Statement, Span)> = Vec::new();
        let mut sent_pos: usize = self.chars.taken();
        assert(sentences_model(parts@) =~= Seq::empty());
        assert(pairs_model(sent@) =~= Seq::empty());
        loop
            invariant
                self.wf(),
                self.text() == s,
                self.line == ln,
                s == old(self).text(),
                ln == old(self).line,
                c0 == old(self).cursor(),
                no_newline(s),
                c0 < sent_pos <= self.cursor(),
                spans_ordered(pairs_model(sent@), sent_pos as int, self.cursor()),
                group(s, ln, k, self.cursor(), sentences_model(parts@), pairs_model(sent@), sent_pos as int)
                    == group(s, ln, k, c0 + 1, Seq::empty(), Seq::empty(), c0 + 1),
            decreases s.len() - self.cursor(),
        {
            let here = self.chars.taken();
            let c = match self.chars.peek() {
                Some(c) => c,
                None => {
                    return Err(
                        Error {
                            kind: ErrorKind::UnclosedBracket,
                            span: self.span_at(sent_pos, here - sent_pos),
                        },
                    );
                },
            };
            match classify(Some(c)) {
                SymbolType::Bracket(ck, false) => {
                    if ck != k {
                        return Err(
                            Error {
                                kind: ErrorKind::WrongClosingBracket(k, ck),
                                span: self.span_at(sent_pos, here - sent_pos),
                            },
                        );
                    }
                    self.chars.next();
                    if sent.len() != 0 {
                        let span = cover_span(&sent, Ghost(sent_pos as int), Ghost(here as int));
                        let ghost before = sentences_model(parts@);
                        proof {
                            lemma_sentence_model(sent, span);
                        }
                        let ghost closed = Sentence { statements: sent, span }.model();
                        parts.push(Sentence { statements: sent, span });
                        assert(sentences_model(parts@) =~= before.push(closed));
                        proof {
                            lemma_bracket_model(k, parts);
                        }
                        return Ok(Statement::Bracket(k, parts));
                    } else if parts.len() == 0 {
                        proof {
                            lemma_bracket_model(k, parts);
                        }
                        return Ok(Statement::Bracket(k, parts));
                    } else {
                        return Err(
                            Error {
                                kind: ErrorKind::EmptyLastPart,
                                span: self.span_at(sent_pos, here - sent_pos),
                            },
                        );
                    }
                },
                SymbolType::Comma => {
                    self.chars.next();
                    if sent.len() == 0 {
                        let after = self.chars.taken();
                        return Err(
                            Error {
                                kind: ErrorKind::EmptyLastPart,
                                span: self.span_at(sent_pos, after - sent_pos),
                            },
                        );
                    }
                    let span = cover_span(&sent, Ghost(sent_pos as int), Ghost(here as int));
                    let ghost before = sentences_model(parts@);
                    proof {
                        lemma_sentence_model(sent, span);
                    }
                    let ghost closed = Sentence { statements: sent, span }.model();
                    parts.push(Sentence { statements: sent, span });
                    assert(sentences_model(parts@) =~= before.push(closed));
                    sent = Vec::new();
                    assert(pairs_model(sent@) =~= Seq::empty());
                    sent_pos = self.chars.taken();
                },
                _ => {
                    let ghost before = pairs_model(sent@);
                    match self.parse_statement() {
                        Err(e) => {
                            return Err(e);
                        },
                        Ok((st, sp)) => {
                            if !matches!(st, Statement::Nothing) {
                                sent.push((st, sp));
                                assert(pairs_model(sent@) =~= before.push((st.model(), sp)));
                            }
                        },
                    }
                },
            }
        }
    }

    /// A comment: the introducer, a space, and the rest of the line.
    fn parse_inner(&mut self) -> (r: Result<Statement, ErrorKind>)
        requires
            old(self).wf(),
            old(self).cursor() < old(self).text().len(),
        ensures
            final(self).wf(),
            final(self).text() == old(self).text(),
            final(self).line_number() == old(self).line_number(),
            ({
                let s = old(self).text();
                let i = old(self).cursor();
                if i + 1 >= s.len() {
                    r == Err::<Statement, ErrorKind>(ErrorKind::InnerAtEnd) && final(self).cursor() == i + 1
                } else if s[i + 1] == ' ' {
                    r is Ok && r->Ok_0 is Nothing && final(self).cursor() == s.len()
                } else {
                    r == Err::<Statement, ErrorKind>(ErrorKind::ExpectedComment) && final(self).cursor() == i + 2
                }
            }),
    {
        self.chars.next();
        match self.chars.next() {
            Some(c) => {
                if c == ' ' {
                    self.chars.skip_rest();
                    Ok(Statement::Nothing)
                } else {
                    Err(ErrorKind::ExpectedComment)
                }
            },
            None => Err(ErrorKind::InnerAtEnd),
        }
    }
}

} // verus!
