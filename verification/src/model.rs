//! The mathematical model of one scan: what token sequence a given
//! source text produces, stated as recursive functions over `Seq<char>`.

use vstd::prelude::*;
use crate::token::{NonTerminal, NumberTypeView, TokenView, is_digit, spec_flow_of, spec_symbol_of};

verus! {

/// True of characters with a flow classification (space or line feed).
pub open spec fn is_flow(c: char) -> bool {
    spec_flow_of(c) is Some
}

/// True of characters with a structural classification.
pub open spec fn is_symbol(c: char) -> bool {
    spec_symbol_of(c) is Some
}

/// True of characters that belong to a word: neither flow nor structural.
pub open spec fn is_word_char(c: char) -> bool {
    !is_flow(c) && !is_symbol(c)
}

/// True of characters that a numeric lexeme keeps consuming: digits and
/// dots.  Dots are consumed unvalidated; a literal with several dots is
/// accepted lexically and pushed downstream as raw text.
pub open spec fn is_number_char(c: char) -> bool {
    is_digit(c) || c == '.'
}

/// Length of the word lexeme that starts at position `i`: the number of
/// consecutive word characters from `i` on.
pub open spec fn word_len(s: Seq<char>, i: int) -> nat
    decreases s.len() - i,
{
    if i < 0 || i >= s.len() || !is_word_char(s[i]) {
        0
    } else {
        1 + word_len(s, i + 1)
    }
}

/// Length of the numeric lexeme that starts at position `i`.
pub open spec fn number_len(s: Seq<char>, i: int) -> nat
    decreases s.len() - i,
{
    if i < 0 || i >= s.len() || !is_number_char(s[i]) {
        0
    } else {
        1 + number_len(s, i + 1)
    }
}

/// Length of the string body that starts at position `i`: the number of
/// characters before the next quote, or to the end of the input when no
/// quote follows.
pub open spec fn string_len(s: Seq<char>, i: int) -> nat
    decreases s.len() - i,
{
    if i < 0 || i >= s.len() || s[i] == crate::token::STRING_BORDER {
        0
    } else {
        1 + string_len(s, i + 1)
    }
}

/// True when some character in `s[i..j]` is a dot.
pub open spec fn has_dot(s: Seq<char>, i: int, j: int) -> bool {
    exists|k: int| i <= k < j && s[k] == '.'
}

/// A word lexeme never runs past the end of the input.
pub proof fn lemma_word_len_le(s: Seq<char>, i: int)
    requires
        0 <= i <= s.len(),
    ensures
        i + word_len(s, i) <= s.len(),
    decreases s.len() - i,
{
    if i < s.len() && is_word_char(s[i]) {
        lemma_word_len_le(s, i + 1);
    }
}

/// A numeric lexeme never runs past the end of the input.
pub proof fn lemma_number_len_le(s: Seq<char>, i: int)
    requires
        0 <= i <= s.len(),
    ensures
        i + number_len(s, i) <= s.len(),
    decreases s.len() - i,
{
    if i < s.len() && is_number_char(s[i]) {
        lemma_number_len_le(s, i + 1);
    }
}

/// The token that the numeric lexeme starting at `i` produces: the raw
/// text, tagged `Float` exactly when a dot occurs in it.
pub open spec fn number_token_at(s: Seq<char>, i: int) -> TokenView {
    let n = number_len(s, i) as int;
    let text = s.subrange(i, i + n);
    if has_dot(s, i, i + n) {
        TokenView::Number(NumberTypeView::Float(text))
    } else {
        TokenView::Number(NumberTypeView::Integer(text))
    }
}

/// The token sequence that scanning `s` from position `i` produces.
///
/// The scan inspects one character at a time: line feeds become
/// `Symbol(Newline)` tokens, spaces are discarded, unclassified
/// characters open a word, digits open a numeric lexeme, a quote opens a
/// delimited string, and every other structural character becomes a
/// one-character symbol token.  A string whose closing quote exists
/// yields border symbols around its body; a string that reaches the end
/// of the input without a closing quote yields the opening border and
/// the remaining text, and the scan stops there.
pub open spec fn lex_spec(s: Seq<char>, i: int) -> Seq<TokenView>
    decreases s.len() - i,
{
    if i < 0 || i >= s.len() {
        Seq::empty()
    } else {
        let c = s[i];
        if c == '\n' {
            seq![TokenView::Symbol(NonTerminal::Newline)] + lex_spec(s, i + 1)
        } else if c == ' ' {
            lex_spec(s, i + 1)
        } else if spec_symbol_of(c) is None {
            proof {
                lemma_word_len_le(s, i);
            }
            let n = word_len(s, i) as int;
            seq![TokenView::Word(s.subrange(i, i + n))] + lex_spec(s, i + n)
        } else if spec_symbol_of(c) == Some(NonTerminal::Number) {
            proof {
                lemma_number_len_le(s, i);
            }
            let n = number_len(s, i) as int;
            seq![number_token_at(s, i)] + lex_spec(s, i + n)
        } else if spec_symbol_of(c) == Some(NonTerminal::StringBorder) {
            let n = string_len(s, i + 1) as int;
            if i + 1 + n < s.len() {
                seq![
                    TokenView::Symbol(NonTerminal::StringBorder),
                    TokenView::String(s.subrange(i + 1, i + 1 + n)),
                    TokenView::Symbol(NonTerminal::StringBorder),
                ] + lex_spec(s, i + 2 + n)
            } else {
                seq![
                    TokenView::Symbol(NonTerminal::StringBorder),
                    TokenView::String(s.subrange(i + 1, s.len() as int)),
                ]
            }
        } else {
            seq![TokenView::Symbol(spec_symbol_of(c).unwrap())] + lex_spec(s, i + 1)
        }
    }
}

} // verus!
