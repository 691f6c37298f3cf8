//! Rendering rules for diff text.
//!
//! Each content line of a backend diff carries an origin tag; the
//! rendered line prefixes additions with `'+'`, deletions with `'-'`
//! and context with a space, while header-ish lines and range markers
//! pass through untouched.  An untracked file has no base to diff
//! against, so its synthetic diff is simply every content line
//! prefixed `'+'`, with no file metadata and no range marker.

use vstd::prelude::*;
use vstd::string::StringExecFns;

use crate::text::chars_string;
use crate::text::join_lines;
use crate::text::push_all;
use crate::text::split_lines;
use crate::text::split_lines_vec;
use crate::text::str_chars;

verus! {

/// How one diff content line is rendered, from its origin tag:
/// additions, deletions and end-of-file notes keep their own tag as
/// prefix, file-level and hunk-level banner lines pass through bare,
/// and everything else is context, prefixed with a space.
pub open spec fn rendered_diff_line(origin: char, content: Seq<char>) -> Seq<char> {
    if origin == '+' || origin == '-' || origin == '=' {
        seq![origin] + content
    } else if origin == 'H' || origin == 'F' || origin == 'B' {
        content
    } else {
        seq![' '] + content
    }
}

/// Renders one diff content line from its origin tag.
pub fn render_diff_line(origin: char, content: &str) -> (r: String)
    ensures
        r@ == rendered_diff_line(origin, content@),
{
    let mut out: Vec<char> = Vec::new();
    if origin == '+' || origin == '-' || origin == '=' {
        out.push(origin);
    } else if origin == 'H' || origin == 'F' || origin == 'B' {
    } else {
        out.push(' ');
    }
    let content_chars = str_chars(content);
    push_all(&mut out, &content_chars);
    chars_string(&out)
}

/// The synthetic diff for an untracked file: each of its content lines
/// prefixed `'+'`.
pub open spec fn untracked_diff_text(content: Seq<char>) -> Seq<char> {
    join_lines(split_lines(content).map_values(|l: Seq<char>| seq!['+'] + l))
}

/// Builds the synthetic diff for an untracked file from its content.
pub fn format_untracked_diff(content: &str) -> (r: String)
    ensures
        r@ == untracked_diff_text(content@),
{
    broadcast use crate::text::lemma_vec_char_deep_view;

    let chars = str_chars(content);
    let lines = split_lines_vec(&chars);
    let ghost plus_lines = split_lines(content@).map_values(|l: Seq<char>| seq!['+'] + l);
    let n = lines.len();
    let mut out: Vec<char> = Vec::new();
    let mut i: usize = 0;
    proof {
        assert(plus_lines.take(0) =~= Seq::<Seq<char>>::empty());
    }
    while i < n
        invariant
            0 <= i <= n,
            n == lines@.len(),
            lines.deep_view() == split_lines(content@),
            plus_lines == split_lines(content@).map_values(|l: Seq<char>| seq!['+'] + l),
            out@ == join_lines(plus_lines.take(i as int)),
        decreases n - i,
    {
        if i > 0 {
            out.push('\n');
        }
        out.push('+');
        push_all(&mut out, &lines[i]);
        proof {
            assert(plus_lines[i as int] =~= seq!['+'] + lines@[i as int]@);
            assert(plus_lines.take(i + 1) =~= plus_lines.take(i as int).push(
                plus_lines[i as int],
            ));
            crate::text::lemma_join_lines_push(plus_lines.take(i as int), plus_lines[i as int]);
            if i > 0 {
                assert(out@ =~= join_lines(plus_lines.take(i as int)) + seq!['\n'] + (seq!['+']
                    + lines@[i as int]@));
            } else {
                assert(out@ =~= seq!['+'] + lines@[i as int]@);
            }
        }
        i = i + 1;
    }
    proof {
        assert(plus_lines.take(n as int) =~= plus_lines);
    }
    chars_string(&out)
}

/// The placeholder shown in the diff pane when the backend cannot
/// produce diff text for the selected path.
pub fn diff_failure_message(error: &str) -> (r: String)
    ensures
        r@ == "Failed to generate diff: "@ + error@,
{
    let mut out = String::new();
    out.append("Failed to generate diff: ");
    out.append(error);
    out
}

} // verus!
