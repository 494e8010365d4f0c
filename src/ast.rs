//! Positions, spans and the tree that one parsed line produces.

use vstd::prelude::*;

verus! {

/// A place in the source: line number and column (characters consumed from
/// the start of the line).
#[derive(Clone, Copy, Debug, PartialEq, Eq, Structural)]
pub struct Position {
    pub line: u16,
    pub offset: usize,
}

/// A region of one line: where it starts and how many characters it holds.
#[derive(Clone, Copy, Debug, PartialEq, Eq, Structural)]
pub struct Span {
    pub begin: Position,
    pub len: usize,
}

/// The three bracket families.
#[derive(Clone, Copy, Debug, PartialEq, Eq, Structural)]
pub enum BracketKind {
    Round,
    Square,
    Curly,
}

/// What went wrong while parsing a line.
#[derive(Clone, Copy, Debug, PartialEq, Eq, Structural)]
pub enum ErrorKind {
    /// The leading whitespace is not a multiple of four columns wide.
    Indentation,
    /// A character that no statement can start with.
    UnexpectedSymbol(char),
    /// A closing bracket with no opener on its level.
    UnexpectedClosingBracket,
    /// The comment introducer is not followed by a space.
    ExpectedComment,
    /// The comment introducer is the last character of the line.
    InnerAtEnd,
    /// A closing bracket of another family than the open one: expected, found.
    WrongClosingBracket(BracketKind, BracketKind),
    /// A comma, or a closer after a comma, with no statement before it.
    EmptyLastPart,
    /// The line ends inside a bracket group.
    UnclosedBracket,
    /// A string literal without its closing quote.
    UnterminatedString,
    /// An integer literal too large for 64 bits.
    IntegerOverflow,
    /// An identifier chain that ends with a dot.
    ChainEndsWithDot,
}

impl ErrorKind {
    /// The text that describes this kind of error.
    pub fn message(&self) -> (r: &'static str)
        ensures
            r@ == match *self {
                ErrorKind::Indentation => "offset is not divisible by 4"@,
                ErrorKind::UnexpectedSymbol(_) => "unexpected symbol"@,
                ErrorKind::UnexpectedClosingBracket => "unexpected closing bracket"@,
                ErrorKind::ExpectedComment => "expected comment"@,
                ErrorKind::InnerAtEnd => "`inner` on the end of the line"@,
                ErrorKind::WrongClosingBracket(_, _) => "wrong closing bracket"@,
                ErrorKind::EmptyLastPart => "empty last part"@,
                ErrorKind::UnclosedBracket => "unclosed bracket"@,
                ErrorKind::UnterminatedString => "unterminated string literal"@,
                ErrorKind::IntegerOverflow => "integer literal does not fit in 64 bits"@,
                ErrorKind::ChainEndsWithDot => "identifier chain ends with a dot"@,
            },
    {
        match *self {
            ErrorKind::Indentation => "offset is not divisible by 4",
            ErrorKind::UnexpectedSymbol(_) => "unexpected symbol",
            ErrorKind::UnexpectedClosingBracket => "unexpected closing bracket",
            ErrorKind::ExpectedComment => "expected comment",
            ErrorKind::InnerAtEnd => "`inner` on the end of the line",
            ErrorKind::WrongClosingBracket(_, _) => "wrong closing bracket",
            ErrorKind::EmptyLastPart => "empty last part",
            ErrorKind::UnclosedBracket => "unclosed bracket",
            ErrorKind::UnterminatedString => "unterminated string literal",
            ErrorKind::IntegerOverflow => "integer literal does not fit in 64 bits",
            ErrorKind::ChainEndsWithDot => "identifier chain ends with a dot",
        }
    }
}

/// A parse error and the region it points at.
#[derive(Clone, Copy, Debug, PartialEq, Eq, Structural)]
pub struct Error {
    pub kind: ErrorKind,
    pub span: Span,
}

/// One syntactic unit of a line.
#[derive(Debug)]
pub enum Statement {
    Nothing,
    Chain(Vec<char>),
    LitString(Vec<char>),
    LitInt(u64),
    Special(Vec<char>),
    Bracket(BracketKind, Vec<Sentence>),
}

/// Statements with their spans, and the span that covers them all.
#[derive(Debug)]
pub struct Sentence {
    pub statements: Vec<(Statement, Span)>,
    pub span: Span,
}

/// A whole parsed line.
#[derive(Debug)]
pub struct Line {
    pub sentence: Sentence,
}

/// The mathematical value of a [`Statement`].
pub enum StatementModel {
    Nothing,
    Chain(Seq<char>),
    LitString(Seq<char>),
    LitInt(u64),
    Special(Seq<char>),
    Bracket(BracketKind, Seq<SentenceModel>),
}

/// The mathematical value of a [`Sentence`].
pub struct SentenceModel {
    pub statements: Seq<(StatementModel, Span)>,
    pub span: Span,
}

/// The mathematical value of a [`Line`].
pub struct LineModel {
    pub sentence: SentenceModel,
}

pub open spec fn sentences_model(v: Seq<Sentence>) -> Seq<SentenceModel> {
    Seq::new(v.len(), |i: int| v[i].model())
}

pub open spec fn pairs_model(v: Seq<(Statement, Span)>) -> Seq<(StatementModel, Span)> {
    Seq::new(v.len(), |i: int| (v[i].0.model(), v[i].1))
}

/// A bracket statement's value is that of its parts, in order.
pub proof fn lemma_bracket_model(k: BracketKind, parts: Vec<Sentence>)
    ensures
        Statement::Bracket(k, parts).model() == StatementModel::Bracket(k, sentences_model(parts@)),
{
    assert(Statement::Bracket(k, parts).model()->Bracket_1 =~= sentences_model(parts@));
}

/// A sentence's value holds the values of its statements, in order.
pub proof fn lemma_sentence_model(v: Vec<(Statement, Span)>, span: Span)
    ensures
        (Sentence { statements: v, span }).model() == (SentenceModel { statements: pairs_model(v@), span }),
{
    assert((Sentence { statements: v, span }).model().statements =~= pairs_model(v@));
}

impl Line {
    pub open spec fn model(self) -> LineModel {
        LineModel { sentence: self.sentence.model() }
    }
}

impl Statement {
    pub open spec fn model(self) -> StatementModel
        decreases self,
    {
        match self {
            Statement::Nothing => StatementModel::Nothing,
            Statement::Chain(c) => StatementModel::Chain(c@),
            Statement::LitString(c) => StatementModel::LitString(c@),
            Statement::LitInt(v) => StatementModel::LitInt(v),
            Statement::Special(c) => StatementModel::Special(c@),
            Statement::Bracket(k, parts) => StatementModel::Bracket(
                k,
                Seq::new(
                    parts.len() as nat,
                    |i: int|
                        if 0 <= i < parts.len() {
                            parts[i].model()
                        } else {
                            SentenceModel { statements: Seq::empty(), span: Span { begin: Position { line: 0, offset: 0 }, len: 0 } }
                        },
                ),
            ),
        }
    }
}

impl Sentence {
    pub open spec fn model(self) -> SentenceModel
        decreases self,
    {
        SentenceModel {
            statements: Seq::new(
                self.statements.len() as nat,
                |i: int|
                    if 0 <= i < self.statements.len() {
                        (self.statements[i].0.model(), self.statements[i].1)
                    } else {
                        (StatementModel::Nothing, self.span)
                    },
            ),
            span: self.span,
        }
    }
}

} // verus!
