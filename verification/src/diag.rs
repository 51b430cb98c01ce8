//! The diagnostic reporter: on a structural mismatch it renders a
//! bounded, caret-annotated window of the source text around the
//! offending position.

use vstd::prelude::*;
use crate::text::{append_str_chars, chars_to_string};

verus! {

/// How many characters of context are shown before the offending position.
pub const ERR_LEFT: usize = 15;

/// How many characters of context are shown after the offending position.
pub const ERR_RIGHT: usize = 15;

/// First character of the window: the offending position, clamped to the
/// left source boundary.
pub open spec fn window_start(pos: int) -> int {
    if pos < ERR_LEFT as int {
        0
    } else {
        pos - ERR_LEFT as int
    }
}

/// One past the last window candidate: the offending position plus the
/// right context, clamped to the right source boundary.
pub open spec fn window_end(len: int, pos: int) -> int {
    if pos + ERR_RIGHT as int > len {
        len
    } else {
        pos + ERR_RIGHT as int
    }
}

/// How many characters of `s[i..end]` are shown: the run before the
/// first line feed, so that a multi-line window is never rendered.
pub open spec fn line_len(s: Seq<char>, i: int, end: int) -> nat
    decreases end - i,
{
    if i < 0 || i >= end || s[i] == '\n' {
        0
    } else {
        1 + line_len(s, i + 1, end)
    }
}

/// The marker line under the window: dashes up to the offending column,
/// ending in a single caret at that column.  `shown` is the number of
/// window characters rendered and `col` the offending column relative to
/// the window start; when the window is cut short of that column, the
/// caret falls back to the last shown character.
pub open spec fn marker_of(shown: int, col: int) -> Seq<char> {
    let d = if col + 1 < shown {
        col + 1
    } else {
        shown
    };
    if d <= 0 {
        seq!['^']
    } else {
        Seq::new((d - 1) as nat, |j: int| '-') + seq!['^']
    }
}

/// The rendered diagnostic: the message, a blank line, the window text,
/// and beneath it the dash-and-caret marker line.
pub open spec fn diag_spec(s: Seq<char>, pos: int, msg: Seq<char>) -> Seq<char> {
    let start = window_start(pos);
    let end = window_end(s.len() as int, pos);
    let shown = line_len(s, start, end) as int;
    msg + seq!['\n', '\n'] + s.subrange(start, start + shown) + seq!['\n'] + marker_of(
        shown,
        pos - start,
    )
}

/// The message reported when one character was required and another, or
/// none, was found.
pub open spec fn expect_msg(exp: char, found: Option<char>) -> Seq<char> {
    match found {
        Some(got) => "smklex: expected ["@ + seq![exp] + "] but got ["@ + seq![got] + "]"@,
        None => "smklex: expected ["@ + seq![exp] + "] but found nothing."@,
    }
}

/// A structural mismatch: the scan required `expected` at character
/// offset `offset` of the source and found `found` (or the end of the
/// input).  `rendered` carries the full caret-annotated report.
pub struct LexError {
    pub expected: char,
    pub found: Option<char>,
    pub offset: usize,
    pub rendered: String,
}

impl LexError {
    /// The error describes offset `pos` of source `s`, with its report
    /// rendered from exactly that window.
    pub open spec fn describes(&self, s: Seq<char>, exp: char, pos: int) -> bool {
        &&& self.expected == exp
        &&& self.offset as int == pos
        &&& self.found == (if pos < s.len() {
            Some(s[pos])
        } else {
            None::<char>
        })
        &&& self.rendered@ == diag_spec(s, pos, expect_msg(exp, self.found))
    }
}

/// Builds the message text for a failed expectation.
pub fn expect_message(exp: char, found: Option<char>) -> (r: Vec<char>)
    ensures
        r@ == expect_msg(exp, found),
{
    let mut m: Vec<char> = Vec::new();
    append_str_chars(&mut m, "smklex: expected [");
    m.push(exp);
    match found {
        Some(got) => {
            append_str_chars(&mut m, "] but got [");
            m.push(got);
            append_str_chars(&mut m, "]");
            proof {
                assert(m@ =~= expect_msg(exp, found));
            }
        },
        None => {
            append_str_chars(&mut m, "] but found nothing.");
            proof {
                assert(m@ =~= expect_msg(exp, found));
            }
        },
    }
    m
}

/// Renders the diagnostic for position `pos` of `src`: the message, a
/// blank line, at most `ERR_LEFT` characters before and `ERR_RIGHT`
/// after `pos` (cut at the first line feed), and a marker line whose
/// caret stands under the offending column.
#[verifier::rlimit(50)]
pub fn render_diagnostic(src: &Vec<char>, pos: usize, msg: &Vec<char>) -> (r: String)
    requires
        pos <= src@.len(),
    ensures
        r@ == diag_spec(src@, pos as int, msg@),
{
    let start: usize = if pos < ERR_LEFT {
        0
    } else {
        pos - ERR_LEFT
    };
    let end: usize = if src.len() - pos < ERR_RIGHT {
        src.len()
    } else {
        pos + ERR_RIGHT
    };
    let mut out: Vec<char> = Vec::new();
    let mut i: usize = 0;
    while i < msg.len()
        invariant
            i <= msg@.len(),
            out@ == msg@.subrange(0, i as int),
        decreases msg@.len() - i,
    {
        out.push(msg[i]);
        i = i + 1;
        proof {
            assert(out@ =~= msg@.subrange(0, i as int));
        }
    }
    proof {
        assert(out@ =~= msg@);
    }
    out.push('\n');
    out.push('\n');
    let mut w: usize = start;
    loop
        invariant
            start <= w <= end,
            end <= src@.len(),
            start == window_start(pos as int),
            end == window_end(src@.len() as int, pos as int),
            out@ == msg@ + seq!['\n', '\n'] + src@.subrange(start as int, w as int),
            line_len(src@, start as int, end as int) == (w - start) + line_len(
                src@,
                w as int,
                end as int,
            ),
        ensures
            start <= w <= end,
            out@ == msg@ + seq!['\n', '\n'] + src@.subrange(start as int, w as int),
            line_len(src@, start as int, end as int) == w - start,
        decreases end - w,
    {
        if w >= end {
            break ;
        }
        let c = src[w];
        if c == '\n' {
            break ;
        }
        out.push(c);
        w = w + 1;
        proof {
            assert(out@ =~= msg@ + seq!['\n', '\n'] + src@.subrange(start as int, w as int));
        }
    }
    out.push('\n');
    let shown: usize = w - start;
    let col: usize = pos - start;
    let d: usize = if col + 1 < shown {
        col + 1
    } else {
        shown
    };
    let ghost before_marker: Seq<char> = out@;
    if d == 0 {
        out.push('^');
        proof {
            assert(out@ =~= before_marker + marker_of(shown as int, col as int));
        }
    } else {
        let mut j: usize = 0;
        while j < d - 1
            invariant
                d >= 1,
                j <= d - 1,
                out@ == before_marker + Seq::new(j as nat, |k: int| '-'),
            decreases d - 1 - j,
        {
            out.push('-');
            j = j + 1;
            proof {
                assert(out@ =~= before_marker + Seq::new(j as nat, |k: int| '-'));
            }
        }
        out.push('^');
        proof {
            assert(out@ =~= before_marker + marker_of(shown as int, col as int));
        }
    }
    proof {
        assert(out@ =~= diag_spec(src@, pos as int, msg@));
    }
    chars_to_string(&out)
}

} // verus!
