//! The diagnostic renderer: formats a structured error against the original
//! source text into a human-readable, multi-line message, reproducing the
//! offending line and a caret when a location is known.

use vstd::prelude::*;
use vstd::string::StrSliceExecFns;
use vstd::string::StringExecFns;

use crate::parse::{error_display, ParseError, ParseErrorView};
use crate::text::{dec_str, usize_dec};

verus! {

/// The position of the first newline at or after `i`, or the text's length
/// when no newline follows.
pub open spec fn line_break_from(text: Seq<char>, i: int) -> int
    decreases text.len() - i,
{
    if i < 0 || i >= text.len() {
        text.len() as int
    } else if text[i] == '\n' {
        i
    } else {
        line_break_from(text, i + 1)
    }
}

pub proof fn lemma_line_break_bounds(text: Seq<char>, i: int)
    requires
        0 <= i <= text.len(),
    ensures
        i <= line_break_from(text, i) <= text.len(),
    decreases text.len() - i,
{
    if i < text.len() && text[i] != '\n' {
        lemma_line_break_bounds(text, i + 1);
    }
}

/// A line without its trailing carriage return, as `str::lines` strips it.
pub open spec fn strip_cr(line: Seq<char>) -> Seq<char> {
    if line.len() > 0 && line[line.len() - 1] == '\r' {
        line.subrange(0, line.len() - 1)
    } else {
        line
    }
}

/// The lines of the text from position `i` on, split at newlines and without
/// the terminators, as `str::lines` splits them.
pub open spec fn lines_from(text: Seq<char>, i: int) -> Seq<Seq<char>>
    decreases text.len() - i,
    via lines_from_decreases
{
    if i < 0 || i >= text.len() {
        Seq::empty()
    } else {
        let k = line_break_from(text, i);
        seq![strip_cr(text.subrange(i, k))] + lines_from(
            text,
            if k == text.len() {
                k
            } else {
                k + 1
            },
        )
    }
}

#[via_fn]
proof fn lines_from_decreases(text: Seq<char>, i: int) {
    if 0 <= i < text.len() {
        lemma_line_break_bounds(text, i);
    }
}

/// The lines of the whole text.
pub open spec fn spec_lines(text: Seq<char>) -> Seq<Seq<char>> {
    lines_from(text, 0)
}

/// A run of `n` spaces.
pub open spec fn spaces(n: nat) -> Seq<char>
    decreases n,
{
    if n == 0 {
        Seq::empty()
    } else {
        spaces((n - 1) as nat) + seq![' ']
    }
}

/// The position of the first newline at or after `i`.
fn find_line_break(text: &str, i: usize) -> (k: usize)
    requires
        i <= text@.len(),
    ensures
        k as int == line_break_from(text@, i as int),
        i <= k <= text@.len(),
{
    let len = text.unicode_len();
    let mut j: usize = i;
    while j < len
        invariant
            i <= j <= len,
            len == text@.len(),
            line_break_from(text@, i as int) == line_break_from(text@, j as int),
        decreases len - j,
    {
        if text.get_char(j) == '\n' {
            return j;
        }
        j += 1;
    }
    j
}

/// The line at 0-based index `idx` of the text.
#[verifier::loop_isolation(false)]
fn nth_line(text: &str, idx: usize) -> (r: String)
    requires
        idx < spec_lines(text@).len(),
    ensures
        r@ == spec_lines(text@)[idx as int],
{
    let len = text.unicode_len();
    let mut start: usize = 0;
    let mut li: usize = 0;
    loop
        invariant
            li <= idx,
            start <= len,
            len == text@.len(),
            lines_from(text@, start as int) =~= spec_lines(text@).skip(li as int),
        decreases idx - li,
    {
        proof {
            assert(lines_from(text@, start as int).len() == spec_lines(text@).len() - li);
            assert(lines_from(text@, start as int).len() > 0);
            assert(start < text@.len());
        }
        let k = find_line_break(text, start);
        if li == idx {
            let line = if k > start && text.get_char(k - 1) == '\r' {
                text.substring_char(start, k - 1)
            } else {
                text.substring_char(start, k)
            };
            proof {
                assert(strip_cr(text@.subrange(start as int, k as int)) =~= line@);
                assert(lines_from(text@, start as int)[0] == spec_lines(text@)[idx as int]);
            }
            return line.to_owned();
        }
        proof {
            assert(lines_from(text@, start as int).len() > 1);
            assert(k < text@.len()) by {
                if k == text@.len() {
                    assert(lines_from(text@, k as int) =~= Seq::<Seq<char>>::empty());
                }
            }
            let s0 = seq![strip_cr(text@.subrange(start as int, k as int))];
            let rest = lines_from(text@, k + 1);
            assert(lines_from(text@, start as int) == s0 + rest);
            assert forall|m: int| 0 <= m < rest.len() implies #[trigger] rest[m] == spec_lines(
                text@,
            ).skip(li + 1 as int)[m] by {
                assert((s0 + rest)[m + 1] == rest[m]);
                assert(spec_lines(text@).skip(li as int)[m + 1] == spec_lines(text@)[li + 1 + m]);
                assert(spec_lines(text@).skip(li + 1 as int)[m] == spec_lines(text@)[li + 1 + m]);
            }
            assert(lines_from(text@, k + 1 as int) =~= spec_lines(text@).skip(li + 1 as int));
        }
        start = k + 1;
        li += 1;
    }
}

/// A run of `n` spaces.
fn make_spaces(n: usize) -> (r: String)
    ensures
        r@ == spaces(n as nat),
{
    let mut out = String::new();
    let mut j: usize = 0;
    while j < n
        invariant
            j <= n,
            out@ == spaces(j as nat),
        decreases n - j,
    {
        out.append(" ");
        proof {
            reveal_strlit(" ");
            assert(out@ =~= spaces((j + 1) as nat));
        }
        j += 1;
    }
    out
}

/// What `generate_error_message` appends for an error: for a located syntax
/// failure, the marker, the offending source line, a caret under the column,
/// and the message; for everything else, its one-line display.
pub open spec fn rendered_message(file: Seq<char>, e: ParseErrorView) -> Seq<char> {
    match e {
        ParseErrorView::SyntaxError(msg, Some((line, col))) => "We think the error occured around line: "@
            + dec_str(line as nat) + ", column "@ + dec_str(col as nat)
            + " but it is possible the actual error is on a previous line and it was only detected here.\n"@
            + spec_lines(file)[line - 1] + "\n"@ + spaces(col as nat) + "^^^\n"@ + "Error: "@ + msg
            + "\n"@,
        _ => error_display(e) + "\n"@,
    }
}

/// Appends to `output` the human-readable rendering of `err` against the
/// source text `file` it arose from: a located syntax failure reproduces the
/// offending line with a caret under the column; every other error is written
/// on one line.
pub fn generate_error_message(output: &mut String, file: &str, err: ParseError)
    requires
        match err@ {
            ParseErrorView::SyntaxError(_, Some((line, _))) => 1 <= line <= spec_lines(
                file@,
            ).len(),
            _ => true,
        },
    ensures
        final(output)@ == old(output)@ + rendered_message(file@, err@),
{
    let ghost ev = err@;
    match err {
        ParseError::SyntaxError(msg, Some(loc)) => {
            output.append("We think the error occured around line: ");
            let line_no = usize_dec(loc.line);
            output.append(line_no.as_str());
            output.append(", column ");
            let col_no = usize_dec(loc.col);
            output.append(col_no.as_str());
            output.append(
                " but it is possible the actual error is on a previous line and it was only detected here.\n",
            );
            let line_text = nth_line(file, loc.line - 1);
            output.append(line_text.as_str());
            output.append("\n");
            let pad = make_spaces(loc.col);
            output.append(pad.as_str());
            output.append("^^^\n");
            output.append("Error: ");
            output.append(msg.as_str());
            output.append("\n");
            proof {
                assert(output@ =~= old(output)@ + rendered_message(file@, ev));
            }
        },
        other => {
            let line = other.to_message();
            output.append(line.as_str());
            output.append("\n");
            proof {
                assert(output@ =~= old(output)@ + rendered_message(file@, ev));
            }
        },
    }
}

} // verus!
