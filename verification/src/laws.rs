//! Properties that relate whole scans, proved over the model.

use vstd::prelude::*;
use crate::model::lex_spec;
use crate::token::{NonTerminal, TokenView};

verus! {

/// From any position of an all-space source, the scan produces nothing.
proof fn all_spaces_from(s: Seq<char>, i: int)
    requires
        0 <= i,
        forall|k: int| 0 <= k < s.len() ==> s[k] == ' ',
    ensures
        lex_spec(s, i) == Seq::<TokenView>::empty(),
    decreases s.len() - i,
{
    if i < s.len() {
        all_spaces_from(s, i + 1);
    }
}

/// Law: an input consisting solely of spaces produces an empty token
/// sequence.
pub proof fn lemma_all_spaces_empty(s: Seq<char>)
    requires
        forall|k: int| 0 <= k < s.len() ==> s[k] == ' ',
    ensures
        lex_spec(s, 0) == Seq::<TokenView>::empty(),
{
    all_spaces_from(s, 0);
}

/// From position `i` of an all-newline source, the scan produces one
/// `Symbol(Newline)` token per remaining character.
proof fn all_newlines_from(s: Seq<char>, i: int)
    requires
        0 <= i <= s.len(),
        forall|k: int| 0 <= k < s.len() ==> s[k] == '\n',
    ensures
        lex_spec(s, i) == Seq::new(
            (s.len() - i) as nat,
            |k: int| TokenView::Symbol(NonTerminal::Newline),
        ),
    decreases s.len() - i,
{
    if i < s.len() {
        all_newlines_from(s, i + 1);
        assert(lex_spec(s, i) =~= Seq::new(
            (s.len() - i) as nat,
            |k: int| TokenView::Symbol(NonTerminal::Newline),
        ));
    } else {
        assert(lex_spec(s, i) =~= Seq::new(
            (s.len() - i) as nat,
            |k: int| TokenView::Symbol(NonTerminal::Newline),
        ));
    }
}

/// Law: an input consisting solely of newline characters produces one
/// `Symbol(Newline)` token per newline, in order.
pub proof fn lemma_all_newlines(s: Seq<char>)
    requires
        forall|k: int| 0 <= k < s.len() ==> s[k] == '\n',
    ensures
        lex_spec(s, 0) == Seq::new(
            s.len(),
            |k: int| TokenView::Symbol(NonTerminal::Newline),
        ),
{
    all_newlines_from(s, 0);
}

/// Law: the scan is a function of the source text alone, so re-running
/// it on the same immutable source yields an identical token sequence.
pub proof fn lemma_scan_deterministic(a: Seq<char>, b: Seq<char>)
    requires
        a == b,
    ensures
        lex_spec(a, 0) == lex_spec(b, 0),
{
}

} // verus!
