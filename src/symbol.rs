//! Classification of one lookahead character into a syntactic category.

use vstd::prelude::*;

use crate::ast::BracketKind;

verus! {

/// The category of a lookahead character, or of the end of the line.
#[derive(Clone, Copy, Debug, PartialEq, Eq, Structural)]
pub enum SymbolType {
    NewLine,
    EndOfStream,
    Dot,
    Comma,
    /// Whitespace, with the number of columns it occupies.
    Whitespace(usize),
    Other,
    Quote,
    Letter,
    Digit,
    Special,
    /// The comment introducer.
    Inner,
    /// A bracket of the given family; `true` when it opens.
    Bracket(BracketKind, bool),
}

/// Characters that form runs of operators.
pub open spec fn is_special_char(c: char) -> bool {
    c == '+' || c == '-' || c == '*' || c == '/' || c == '=' || c == '<' || c == '>' || c == '!'
        || c == '&' || c == '|' || c == '^' || c == '%' || c == '~' || c == '?' || c == ':'
        || c == ';' || c == '@' || c == '$'
}

pub open spec fn is_letter_char(c: char) -> bool {
    ('a' <= c && c <= 'z') || ('A' <= c && c <= 'Z') || c == '_'
}

pub open spec fn is_digit_char(c: char) -> bool {
    '0' <= c && c <= '9'
}

/// The category of every character, and of the end of the line (`None`).
pub open spec fn symbol_of(c: Option<char>) -> SymbolType {
    match c {
        None => SymbolType::EndOfStream,
        Some(c) => if c == '\n' {
            SymbolType::NewLine
        } else if c == '.' {
            SymbolType::Dot
        } else if c == ',' {
            SymbolType::Comma
        } else if c == ' ' {
            SymbolType::Whitespace(1)
        } else if c == '\t' {
            SymbolType::Whitespace(4)
        } else if c == '"' {
            SymbolType::Quote
        } else if is_letter_char(c) {
            SymbolType::Letter
        } else if is_digit_char(c) {
            SymbolType::Digit
        } else if is_special_char(c) {
            SymbolType::Special
        } else if c == '#' {
            SymbolType::Inner
        } else if c == '(' {
            SymbolType::Bracket(BracketKind::Round, true)
        } else if c == ')' {
            SymbolType::Bracket(BracketKind::Round, false)
        } else if c == '[' {
            SymbolType::Bracket(BracketKind::Square, true)
        } else if c == ']' {
            SymbolType::Bracket(BracketKind::Square, false)
        } else if c == '{' {
            SymbolType::Bracket(BracketKind::Curly, true)
        } else if c == '}' {
            SymbolType::Bracket(BracketKind::Curly, false)
        } else {
            SymbolType::Other
        },
    }
}

/// Classifies a lookahead character; total and free of state.
pub fn classify(c: Option<char>) -> (r: SymbolType)
    ensures
        r == symbol_of(c),
{
    match c {
        None => SymbolType::EndOfStream,
        Some(c) => {
            if c == '\n' {
                SymbolType::NewLine
            } else if c == '.' {
                SymbolType::Dot
            } else if c == ',' {
                SymbolType::Comma
            } else if c == ' ' {
                SymbolType::Whitespace(1)
            } else if c == '\t' {
                SymbolType::Whitespace(4)
            } else if c == '"' {
                SymbolType::Quote
            } else if ('a' <= c && c <= 'z') || ('A' <= c && c <= 'Z') || c == '_' {
                SymbolType::Letter
            } else if '0' <= c && c <= '9' {
                SymbolType::Digit
            } else if c == '+' || c == '-' || c == '*' || c == '/' || c == '=' || c == '<' || c
                == '>' || c == '!' || c == '&' || c == '|' || c == '^' || c == '%' || c == '~' || c
                == '?' || c == ':' || c == ';' || c == '@' || c == '$' {
                SymbolType::Special
            } else if c == '#' {
                SymbolType::Inner
            } else if c == '(' {
                SymbolType::Bracket(BracketKind::Round, true)
            } else if c == ')' {
                SymbolType::Bracket(BracketKind::Round, false)
            } else if c == '[' {
                SymbolType::Bracket(BracketKind::Square, true)
            } else if c == ']' {
                SymbolType::Bracket(BracketKind::Square, false)
            } else if c == '{' {
                SymbolType::Bracket(BracketKind::Curly, true)
            } else if c == '}' {
                SymbolType::Bracket(BracketKind::Curly, false)
            } else {
                SymbolType::Other
            }
        },
    }
}

} // verus!
