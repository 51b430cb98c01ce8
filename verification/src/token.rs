//! The token data model and the single-character classification tables.

use vstd::prelude::*;

verus! {

/// The character that opens and closes a string literal.
pub const STRING_BORDER: char = '"';

/// The closed set of single-character structural markers.  Exactly one
/// character maps to each variant, except `Number`, which every decimal
/// digit maps to, and `Newline`, which is produced from flow
/// classification rather than from a structural character.
#[derive(Debug, Clone, Copy, PartialEq, Eq, Structural)]
pub enum NonTerminal {
    Plus,
    Minus,
    Mul,
    Div,
    Equals,
    Newline,
    Number,
    Dot,
    StringBorder,
    StatementEnd,
    BlockOpen,
    BlockClose,
    ParenOpen,
    ParenClose,
}

/// Whitespace classification: spaces separate lexemes and are discarded,
/// line feeds are surfaced as `Symbol(Newline)` tokens.
#[derive(Debug, Clone, Copy, PartialEq, Eq, Structural)]
pub enum FlowChar {
    Whitespace,
    Newline,
}

/// True of the ten decimal digits.
pub open spec fn is_digit(c: char) -> bool {
    '0' <= c && c <= '9'
}

/// Structural classification of a single character.
pub open spec fn spec_symbol_of(c: char) -> Option<NonTerminal> {
    if c == '{' {
        Some(NonTerminal::BlockOpen)
    } else if c == '}' {
        Some(NonTerminal::BlockClose)
    } else if c == '(' {
        Some(NonTerminal::ParenOpen)
    } else if c == ')' {
        Some(NonTerminal::ParenClose)
    } else if is_digit(c) {
        Some(NonTerminal::Number)
    } else if c == '+' {
        Some(NonTerminal::Plus)
    } else if c == '-' {
        Some(NonTerminal::Minus)
    } else if c == '/' {
        Some(NonTerminal::Div)
    } else if c == '*' {
        Some(NonTerminal::Mul)
    } else if c == '=' {
        Some(NonTerminal::Equals)
    } else if c == ';' {
        Some(NonTerminal::StatementEnd)
    } else if c == '.' {
        Some(NonTerminal::Dot)
    } else if c == STRING_BORDER {
        Some(NonTerminal::StringBorder)
    } else {
        None
    }
}

/// Flow classification of a single character.
pub open spec fn spec_flow_of(c: char) -> Option<FlowChar> {
    if c == '\n' {
        Some(FlowChar::Newline)
    } else if c == ' ' {
        Some(FlowChar::Whitespace)
    } else {
        None
    }
}

impl NonTerminal {
    /// Structural classification table: maps a character to the symbol it
    /// forms, if any.  Digits map to the single tag `Number`.
    pub fn try_from_char(c: char) -> (r: Option<NonTerminal>)
        ensures
            r == spec_symbol_of(c),
    {
        if c == '{' {
            Some(NonTerminal::BlockOpen)
        } else if c == '}' {
            Some(NonTerminal::BlockClose)
        } else if c == '(' {
            Some(NonTerminal::ParenOpen)
        } else if c == ')' {
            Some(NonTerminal::ParenClose)
        } else if '0' <= c && c <= '9' {
            Some(NonTerminal::Number)
        } else if c == '+' {
            Some(NonTerminal::Plus)
        } else if c == '-' {
            Some(NonTerminal::Minus)
        } else if c == '/' {
            Some(NonTerminal::Div)
        } else if c == '*' {
            Some(NonTerminal::Mul)
        } else if c == '=' {
            Some(NonTerminal::Equals)
        } else if c == ';' {
            Some(NonTerminal::StatementEnd)
        } else if c == '.' {
            Some(NonTerminal::Dot)
        } else if c == STRING_BORDER {
            Some(NonTerminal::StringBorder)
        } else {
            None
        }
    }
}

impl FlowChar {
    /// Flow classification table: maps a character to its whitespace kind,
    /// if it has one.
    pub fn try_from_char(c: char) -> (r: Option<FlowChar>)
        ensures
            r == spec_flow_of(c),
    {
        if c == '\n' {
            Some(FlowChar::Newline)
        } else if c == ' ' {
            Some(FlowChar::Whitespace)
        } else {
            None
        }
    }
}

/// A numeric lexeme.  The raw text is kept verbatim; conversion to a
/// numeric value is deferred to a later stage on purpose, so the
/// tokenizer never fails on overflow.
#[derive(Debug, PartialEq, Eq)]
pub enum NumberType {
    Integer(String),
    Float(String),
}

/// One classified unit of source text, in source order.
#[derive(Debug, PartialEq, Eq)]
pub enum Token {
    Symbol(NonTerminal),
    Word(String),
    Number(NumberType),
    String(String),
}

/// Mathematical counterpart of `NumberType`: the lexeme as a character
/// sequence.
pub enum NumberTypeView {
    Integer(Seq<char>),
    Float(Seq<char>),
}

/// Mathematical counterpart of `Token`, used by all contracts.
pub enum TokenView {
    Symbol(NonTerminal),
    Word(Seq<char>),
    Number(NumberTypeView),
    String(Seq<char>),
}

impl View for NumberType {
    type V = NumberTypeView;

    open spec fn view(&self) -> NumberTypeView {
        match self {
            NumberType::Integer(s) => NumberTypeView::Integer(s@),
            NumberType::Float(s) => NumberTypeView::Float(s@),
        }
    }
}

impl View for Token {
    type V = TokenView;

    open spec fn view(&self) -> TokenView {
        match self {
            Token::Symbol(nt) => TokenView::Symbol(*nt),
            Token::Word(w) => TokenView::Word(w@),
            Token::Number(n) => TokenView::Number(n@),
            Token::String(s) => TokenView::String(s@),
        }
    }
}

/// The views of a sequence of tokens, element by element.
pub open spec fn token_views(ts: Seq<Token>) -> Seq<TokenView> {
    ts.map_values(|t: Token| t@)
}

} // verus!
