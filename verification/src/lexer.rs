//! The source cursor and the scanning routines.  The scan driver `lex`
//! produces exactly the token sequence that `model::lex_spec` prescribes
//! for the source text.

use vstd::pervasive::unreached;
use vstd::prelude::*;
use crate::diag::{LexError, expect_message, render_diagnostic};
use crate::model::{has_dot, lex_spec, number_len, number_token_at, string_len, word_len};
use crate::text::{chars_of, chars_to_string};
use crate::token::{
    FlowChar, NonTerminal, NumberType, STRING_BORDER, Token, TokenView, token_views,
};

verus! {

/// The owned, position-tracking view over the source text used during
/// one scan.  The cursor only moves forward; it is created on the full
/// source and discarded once the token sequence is produced.
pub struct Lexer {
    text: Vec<char>,
    pos: usize,
}

impl Lexer {
    /// The source text being scanned, as a character sequence.
    pub closed spec fn src(&self) -> Seq<char> {
        self.text@
    }

    /// The cursor: how many characters have been consumed so far.
    pub closed spec fn cursor(&self) -> int {
        self.pos as int
    }

    /// The cursor never stands past the end of the source.
    pub open spec fn wf(&self) -> bool {
        self.cursor() <= self.src().len()
    }

    /// Creates a cursor over the full source text, standing at its first
    /// character.
    pub fn new(code: &str) -> (r: Lexer)
        ensures
            r.wf(),
            r.src() == code@,
            r.cursor() == 0,
    {
        Lexer { text: chars_of(code), pos: 0 }
    }

    /// Returns and consumes the next character; returns nothing once the
    /// source is exhausted.
    pub fn next(&mut self) -> (r: Option<char>)
        requires
            old(self).wf(),
        ensures
            final(self).wf(),
            final(self).src() == old(self).src(),
            old(self).cursor() < old(self).src().len() ==> r == Some(
                old(self).src()[old(self).cursor()],
            ) && final(self).cursor() == old(self).cursor() + 1,
            old(self).cursor() >= old(self).src().len() ==> r is None && final(self).cursor()
                == old(self).cursor(),
    {
        if self.pos < self.text.len() {
            let c = self.text[self.pos];
            self.pos = self.pos + 1;
            Some(c)
        } else {
            None
        }
    }

    /// Returns the next character without consuming it; returns nothing
    /// once the source is exhausted.
    pub fn peek(&self) -> (r: Option<char>)
        requires
            self.wf(),
        ensures
            self.cursor() < self.src().len() ==> r == Some(self.src()[self.cursor()]),
            self.cursor() >= self.src().len() ==> r is None,
    {
        if self.pos < self.text.len() {
            Some(self.text[self.pos])
        } else {
            None
        }
    }

    /// Consumes one character, discarding it; used when the character's
    /// identity is already known from `peek`.
    pub fn eat(&mut self)
        requires
            old(self).wf(),
        ensures
            final(self).wf(),
            final(self).src() == old(self).src(),
            old(self).cursor() < old(self).src().len() ==> final(self).cursor() == old(self).cursor() + 1,
            old(self).cursor() >= old(self).src().len() ==> final(self).cursor() == old(self).cursor(),
    {
        let _ = self.next();
    }

    /// Consumes one character and requires it to equal `exp`.  On success
    /// the cursor has moved past it; otherwise the error names the
    /// expected and the found character and carries the rendered,
    /// caret-annotated window around the offending offset.
    pub fn expect(&mut self, exp: char) -> (r: Result<(), LexError>)
        requires
            old(self).wf(),
        ensures
            final(self).wf(),
            final(self).src() == old(self).src(),
            old(self).cursor() < old(self).src().len() ==> final(self).cursor() == old(self).cursor() + 1,
            old(self).cursor() >= old(self).src().len() ==> final(self).cursor() == old(self).cursor(),
            old(self).cursor() < old(self).src().len() && old(self).src()[old(self).cursor()]
                == exp ==> r is Ok,
            !(old(self).cursor() < old(self).src().len() && old(self).src()[old(self).cursor()]
                == exp) ==> (r matches Err(e) && e.describes(
                old(self).src(),
                exp,
                old(self).cursor(),
            )),
    {
        let at = self.pos;
        match self.next() {
            Some(got) => {
                if got == exp {
                    Ok(())
                } else {
                    let msg = expect_message(exp, Some(got));
                    let rendered = render_diagnostic(&self.text, at, &msg);
                    Err(LexError { expected: exp, found: Some(got), offset: at, rendered })
                }
            },
            None => {
                let msg = expect_message(exp, None);
                let rendered = render_diagnostic(&self.text, at, &msg);
                Err(LexError { expected: exp, found: None, offset: at, rendered })
            },
        }
    }

    /// Greedily consumes word characters - those with neither a flow nor
    /// a structural classification - and returns them as the word's text.
    /// The stopping character is not consumed; the text may be empty when
    /// the stop condition is met immediately.
    pub fn read_word(&mut self) -> (r: String)
        requires
            old(self).wf(),
        ensures
            final(self).wf(),
            final(self).src() == old(self).src(),
            final(self).cursor() == old(self).cursor() + word_len(old(self).src(), old(self).cursor()),
            r@ == old(self).src().subrange(old(self).cursor(), final(self).cursor()),
    {
        let mut word: Vec<char> = Vec::new();
        let ghost s = self.src();
        let ghost start = self.cursor();
        loop
            invariant
                self.wf(),
                self.src() == s,
                start <= self.cursor(),
                word@ == s.subrange(start, self.cursor()),
                word_len(s, start) == self.cursor() - start + word_len(s, self.cursor()),
            ensures
                self.wf(),
                self.src() == s,
                start <= self.cursor(),
                word@ == s.subrange(start, self.cursor()),
                self.cursor() == start + word_len(s, start),
            decreases s.len() - self.cursor(),
        {
            let copt = self.peek();
            match copt {
                None => {
                    break ;
                },
                Some(c) => {
                    match FlowChar::try_from_char(c) {
                        Some(_) => {
                            break ;
                        },
                        None => {},
                    }
                    match NonTerminal::try_from_char(c) {
                        Some(_) => {
                            break ;
                        },
                        None => {},
                    }
                    let consumed = self.next();
                    word.push(consumed.unwrap());
                    proof {
                        assert(word@ =~= s.subrange(start, self.cursor()));
                    }
                },
            }
        }
        chars_to_string(&word)
    }

    /// Greedily consumes characters of a string body, up to but not
    /// including the next quote.  When no quote follows, it consumes to
    /// the end of the input and stops silently: an unterminated string
    /// yields whatever text was accumulated, by design.
    pub fn read_string(&mut self) -> (r: String)
        requires
            old(self).wf(),
        ensures
            final(self).wf(),
            final(self).src() == old(self).src(),
            final(self).cursor() == old(self).cursor() + string_len(
                old(self).src(),
                old(self).cursor(),
            ),
            r@ == old(self).src().subrange(old(self).cursor(), final(self).cursor()),
            final(self).cursor() == final(self).src().len() || final(self).src()[final(self).cursor()] == STRING_BORDER,
    {
        let mut body: Vec<char> = Vec::new();
        let ghost s = self.src();
        let ghost start = self.cursor();
        loop
            invariant
                self.wf(),
                self.src() == s,
                start <= self.cursor(),
                body@ == s.subrange(start, self.cursor()),
                string_len(s, start) == self.cursor() - start + string_len(s, self.cursor()),
            ensures
                self.wf(),
                self.src() == s,
                start <= self.cursor(),
                body@ == s.subrange(start, self.cursor()),
                self.cursor() == start + string_len(s, start),
                self.cursor() == s.len() || s[self.cursor()] == STRING_BORDER,
            decreases s.len() - self.cursor(),
        {
            let copt = self.peek();
            match copt {
                None => {
                    break ;
                },
                Some(c) => {
                    match NonTerminal::try_from_char(c) {
                        Some(NonTerminal::StringBorder) => {
                            break ;
                        },
                        _ => {},
                    }
                    let consumed = self.next();
                    body.push(consumed.unwrap());
                    proof {
                        assert(body@ =~= s.subrange(start, self.cursor()));
                    }
                },
            }
        }
        chars_to_string(&body)
    }

    /// Greedily consumes digits and dots.  The first dot makes the
    /// lexeme a float, stickily; further dots are consumed as text and
    /// not validated.  The raw text is returned tagged with its kind.
    pub fn read_number(&mut self) -> (r: NumberType)
        requires
            old(self).wf(),
        ensures
            final(self).wf(),
            final(self).src() == old(self).src(),
            final(self).cursor() == old(self).cursor() + number_len(
                old(self).src(),
                old(self).cursor(),
            ),
            TokenView::Number(r@) == number_token_at(old(self).src(), old(self).cursor()),
    {
        let mut number: Vec<char> = Vec::new();
        let mut is_float: bool = false;
        let ghost s = self.src();
        let ghost start = self.cursor();
        loop
            invariant
                self.wf(),
                self.src() == s,
                start <= self.cursor(),
                number@ == s.subrange(start, self.cursor()),
                number_len(s, start) == self.cursor() - start + number_len(s, self.cursor()),
                is_float == has_dot(s, start, self.cursor()),
            ensures
                self.wf(),
                self.src() == s,
                start <= self.cursor(),
                number@ == s.subrange(start, self.cursor()),
                self.cursor() == start + number_len(s, start),
                is_float == has_dot(s, start, self.cursor()),
            decreases s.len() - self.cursor(),
        {
            let copt = self.peek();
            match copt {
                None => {
                    break ;
                },
                Some(c) => {
                    match NonTerminal::try_from_char(c) {
                        Some(NonTerminal::Number) => {
                            proof {
                                if has_dot(s, start, self.cursor() + 1) {
                                    let k = choose|k: int|
                                        start <= k < self.cursor() + 1 && s[k] == '.';
                                    assert(start <= k < self.cursor() && s[k] == '.');
                                }
                            }
                        },
                        Some(NonTerminal::Dot) => {
                            is_float = true;
                            proof {
                                assert(s[self.cursor()] == '.');
                                assert(has_dot(s, start, self.cursor() + 1));
                            }
                        },
                        _ => {
                            break ;
                        },
                    }
                    let consumed = self.next();
                    number.push(consumed.unwrap());
                    proof {
                        assert(number@ =~= s.subrange(start, self.cursor()));
                    }
                },
            }
        }
        let text = chars_to_string(&number);
        if is_float {
            NumberType::Float(text)
        } else {
            NumberType::Integer(text)
        }
    }

    /// The scan driver and sole entry point of one scan: repeatedly
    /// inspects the next character, dispatches to a scanning routine or
    /// emits a single-character symbol, and returns the accumulated
    /// token sequence - exactly the one `lex_spec` prescribes for the
    /// source text from the cursor's position on.
    pub fn lex(self) -> (r: Vec<Token>)
        requires
            self.wf(),
        ensures
            token_views(r@) == lex_spec(self.src(), self.cursor()),
    {
        let mut lx = self;
        let mut tokens: Vec<Token> = Vec::new();
        let ghost s = lx.src();
        let ghost start = lx.cursor();
        loop
            invariant
                lx.wf(),
                lx.src() == s,
                start <= lx.cursor(),
                token_views(tokens@) + lex_spec(s, lx.cursor()) == lex_spec(s, start),
            ensures
                token_views(tokens@) == lex_spec(s, start),
            decreases s.len() - lx.cursor(),
        {
            let copt = lx.peek();
            let c = match copt {
                None => {
                    proof {
                        assert(lex_spec(s, lx.cursor()) =~= Seq::<TokenView>::empty());
                        assert(token_views(tokens@) =~= lex_spec(s, start));
                    }
                    break ;
                },
                Some(c) => c,
            };
            let ghost p = lx.cursor();
            let ghost tv0 = tokens@;
            match FlowChar::try_from_char(c) {
                Some(FlowChar::Newline) => {
                    tokens.push(Token::Symbol(NonTerminal::Newline));
                    lx.eat();
                    proof {
                        assert(lex_spec(s, p) == seq![
                            TokenView::Symbol(NonTerminal::Newline),
                        ] + lex_spec(s, p + 1));
                        assert(token_views(tokens@) + lex_spec(s, lx.cursor()) =~= token_views(
                            tv0,
                        ) + lex_spec(s, p));
                    }
                    continue ;
                },
                Some(FlowChar::Whitespace) => {
                    lx.eat();
                    proof {
                        assert(lex_spec(s, p) == lex_spec(s, p + 1));
                    }
                    continue ;
                },
                None => {},
            }
            let nonterm: NonTerminal = match NonTerminal::try_from_char(c) {
                Some(nt) => nt,
                None => {
                    let w = lx.read_word();
                    tokens.push(Token::Word(w));
                    proof {
                        let n = word_len(s, p) as int;
                        assert(lex_spec(s, p) == seq![
                            TokenView::Word(s.subrange(p, p + n)),
                        ] + lex_spec(s, p + n));
                        assert(token_views(tokens@) + lex_spec(s, lx.cursor()) =~= token_views(
                            tv0,
                        ) + lex_spec(s, p));
                    }
                    continue ;
                },
            };
            match nonterm {
                NonTerminal::Number => {
                    let num = lx.read_number();
                    tokens.push(Token::Number(num));
                    proof {
                        let n = number_len(s, p) as int;
                        assert(lex_spec(s, p) == seq![number_token_at(s, p)] + lex_spec(s, p + n));
                        assert(token_views(tokens@) + lex_spec(s, lx.cursor()) =~= token_views(
                            tv0,
                        ) + lex_spec(s, p));
                    }
                },
                NonTerminal::StringBorder => {
                    tokens.push(Token::Symbol(NonTerminal::StringBorder));
                    match lx.expect(STRING_BORDER) {
                        Ok(_) => {},
                        Err(_) => {
                            return unreached();
                        },
                    }
                    let body = lx.read_string();
                    tokens.push(Token::String(body));
                    let ghost n = string_len(s, p + 1) as int;
                    let more = lx.peek();
                    match more {
                        Some(_) => {
                            tokens.push(Token::Symbol(NonTerminal::StringBorder));
                            match lx.expect(STRING_BORDER) {
                                Ok(_) => {},
                                Err(_) => {
                                    return unreached();
                                },
                            }
                            proof {
                                assert(p + 1 + n < s.len());
                                assert(lex_spec(s, p) == seq![
                                    TokenView::Symbol(NonTerminal::StringBorder),
                                    TokenView::String(s.subrange(p + 1, p + 1 + n)),
                                    TokenView::Symbol(NonTerminal::StringBorder),
                                ] + lex_spec(s, p + 2 + n));
                                assert(token_views(tokens@) + lex_spec(s, lx.cursor())
                                    =~= token_views(tv0) + lex_spec(s, p));
                            }
                        },
                        None => {
                            proof {
                                assert(lx.cursor() == s.len());
                                assert(p + 1 + n == s.len());
                                assert(lex_spec(s, p) == seq![
                                    TokenView::Symbol(NonTerminal::StringBorder),
                                    TokenView::String(s.subrange(p + 1, s.len() as int)),
                                ]);
                                assert(lex_spec(s, lx.cursor()) =~= Seq::<TokenView>::empty());
                                assert(token_views(tokens@) =~= token_views(tv0) + lex_spec(s, p));
                                assert(token_views(tokens@) =~= lex_spec(s, start));
                            }
                            break ;
                        },
                    }
                },
                _ => {
                    tokens.push(Token::Symbol(nonterm));
                    lx.eat();
                    proof {
                        assert(lex_spec(s, p) == seq![TokenView::Symbol(nonterm)] + lex_spec(
                            s,
                            p + 1,
                        ));
                        assert(token_views(tokens@) + lex_spec(s, lx.cursor()) =~= token_views(
                            tv0,
                        ) + lex_spec(s, p));
                    }
                },
            }
        }
        tokens
    }
}

} // verus!
