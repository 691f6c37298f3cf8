//! Parsing unified-diff text into a header and hunks, and isolating one
//! hunk into a standalone patch.
//!
//! A hunk starts at a range-marker line (one that begins with `"@@"`) and
//! runs until the next marker or the end of the text; everything before
//! the first marker is the header.

use vstd::prelude::*;
use vstd::string::StringExecFns;

use crate::text::join_lines;
use crate::text::split_lines;
use crate::text::chars_string;
use crate::text::push_all;
use crate::text::split_lines_vec;
use crate::text::str_chars;
use crate::text::line_count;
use crate::text::line_count_str;
use crate::text::has_no_newline;
use crate::text::lemma_line_end_no_newline;
use crate::text::lemma_split_lines_no_newline;

verus! {

/// A diff split into its header and its hunks.
pub struct ParsedDiff {
    pub header: String,
    pub hunks: Vec<String>,
}

/// A line that opens a hunk: it begins with `"@@"`.
pub open spec fn is_hunk_start(line: Seq<char>) -> bool {
    line.len() >= 2 && line[0] == '@' && line[1] == '@'
}

/// Index of the first hunk-start line at or after `from`, or `lines.len()`
/// if there is none.
pub open spec fn next_marker(lines: Seq<Seq<char>>, from: int) -> int
    decreases lines.len() - from,
{
    if from < 0 || from >= lines.len() {
        lines.len() as int
    } else if is_hunk_start(lines[from]) {
        from
    } else {
        next_marker(lines, from + 1)
    }
}

/// How many hunk-start lines stand at or after `from`.
pub open spec fn marker_count_from(lines: Seq<Seq<char>>, from: int) -> nat
    decreases lines.len() - from,
{
    if from < 0 || from >= lines.len() {
        0
    } else if is_hunk_start(lines[from]) {
        1 + marker_count_from(lines, from + 1)
    } else {
        marker_count_from(lines, from + 1)
    }
}

/// Index of the line that opens hunk `j` (or `lines.len()` when fewer
/// than `j + 1` hunks exist).
pub open spec fn marker_index(lines: Seq<Seq<char>>, j: int) -> int
    decreases j,
{
    if j <= 0 {
        next_marker(lines, 0)
    } else {
        next_marker(lines, marker_index(lines, j - 1) + 1)
    }
}

/// The header of a diff text: its lines before the first hunk marker.
pub open spec fn parsed_header_of(text: Seq<char>) -> Seq<char> {
    let ls = split_lines(text);
    join_lines(ls.take(next_marker(ls, 0)))
}

/// How many hunks a diff text holds: one per marker line.
pub open spec fn hunk_count_of(text: Seq<char>) -> nat {
    marker_count_from(split_lines(text), 0)
}

/// Hunk `j` of a diff text: the lines from its marker up to the next
/// marker (or the end), joined back into flat text.
pub open spec fn hunk_of(text: Seq<char>, j: int) -> Seq<char> {
    let ls = split_lines(text);
    join_lines(ls.subrange(marker_index(ls, j), marker_index(ls, j + 1)))
}

/// `next_marker` lands between `from` and the end, on a marker if on
/// anything, and skips no marker on the way.
pub proof fn lemma_next_marker_bounds(lines: Seq<Seq<char>>, from: int)
    requires
        0 <= from <= lines.len(),
    ensures
        from <= next_marker(lines, from) <= lines.len(),
        next_marker(lines, from) < lines.len() ==> is_hunk_start(
            lines[next_marker(lines, from)],
        ),
        forall|k: int| from <= k < next_marker(lines, from) ==> !is_hunk_start(lines[k]),
    decreases lines.len() - from,
{
    if from < lines.len() && !is_hunk_start(lines[from]) {
        lemma_next_marker_bounds(lines, from + 1);
    }
}

/// `next_marker` is the one position that is a marker (or the end)
/// with no marker before it.
pub proof fn lemma_next_marker_is(lines: Seq<Seq<char>>, from: int, p: int)
    requires
        0 <= from <= p <= lines.len(),
        forall|k: int| from <= k < p ==> !is_hunk_start(lines[k]),
        p == lines.len() || is_hunk_start(lines[p]),
    ensures
        next_marker(lines, from) == p,
    decreases p - from,
{
    if from < p {
        lemma_next_marker_is(lines, from + 1, p);
    }
}

/// Skipping a marker-free stretch does not change how many markers
/// remain.
pub proof fn lemma_marker_count_skip(lines: Seq<Seq<char>>, from: int, p: int)
    requires
        0 <= from <= p <= lines.len(),
        forall|k: int| from <= k < p ==> !is_hunk_start(lines[k]),
    ensures
        marker_count_from(lines, from) == marker_count_from(lines, p),
    decreases p - from,
{
    if from < p {
        lemma_marker_count_skip(lines, from + 1, p);
    }
}

/// The standalone patch for one hunk: the shared header, then the hunk,
/// each followed by a newline.
pub open spec fn patch_text(header: Seq<char>, hunk: Seq<char>) -> Seq<char> {
    header + seq!['\n'] + hunk + seq!['\n']
}

/// Isolates hunk `hunk_index` into a patch that can be applied on its
/// own: the hunk's own range marker already encodes its absolute
/// position, so no other hunk is needed.  Fails exactly when no such
/// hunk exists.
pub fn create_patch_from_hunk(parsed_diff: &ParsedDiff, hunk_index: usize) -> (r: Option<String>)
    ensures
        hunk_index < parsed_diff.hunks@.len() ==> (r matches Some(p) && p@ == patch_text(
            parsed_diff.header@,
            parsed_diff.hunks@[hunk_index as int]@,
        )),
        hunk_index >= parsed_diff.hunks@.len() ==> r is None,
{
    if hunk_index < parsed_diff.hunks.len() {
        let mut patch = String::new();
        patch.append(parsed_diff.header.as_str());
        patch.append("\n");
        patch.append(parsed_diff.hunks[hunk_index].as_str());
        patch.append("\n");
        proof {
            reveal_strlit("\n");
            assert("\n"@ =~= seq!['\n']);
        }
        Some(patch)
    } else {
        None
    }
}

/// How many rendered diff lines the hunks before hunk `j` take up.
pub open spec fn hunk_lines_before(hunks: Seq<Seq<char>>, j: int) -> nat
    decreases j,
{
    if j <= 0 {
        0
    } else {
        hunk_lines_before(hunks, j - 1) + line_count(hunks[j - 1])
    }
}

/// Hunk `j` of the parsed diff covers rendered line `line`: the header's
/// lines come first, then each hunk's lines in order.
pub open spec fn hunk_covers_line(parsed: ParsedDiff, j: int, line: int) -> bool {
    let start = line_count(parsed.header@) + hunk_lines_before(parsed.hunks.deep_view(), j);
    start <= line < start + line_count(parsed.hunks.deep_view()[j])
}

/// Finds the hunk whose rendered lines cover line `line` of the diff
/// text, counting the header's lines first.  Lines inside the header,
/// or past the last hunk, belong to no hunk.
pub fn get_hunk_index_from_line(parsed_diff: &ParsedDiff, line: usize) -> (r: Option<usize>)
    ensures
        r matches Some(j) ==> 0 <= j < parsed_diff.hunks@.len() && hunk_covers_line(
            *parsed_diff,
            j as int,
            line as int,
        ),
        r is None ==> forall|j: int|
            0 <= j < parsed_diff.hunks@.len() ==> !hunk_covers_line(*parsed_diff, j, line as int),
{
    broadcast use crate::text::lemma_vec_char_deep_view;

    let ghost hunks = parsed_diff.hunks.deep_view();
    let header_lines = line_count_str(parsed_diff.header.as_str());
    if line < header_lines {
        return None;
    }
    let mut acc: usize = header_lines;
    let n = parsed_diff.hunks.len();
    let mut j: usize = 0;
    while j < n
        invariant
            0 <= j <= n,
            n == parsed_diff.hunks@.len(),
            hunks == parsed_diff.hunks.deep_view(),
            header_lines == line_count(parsed_diff.header@),
            acc == header_lines + hunk_lines_before(hunks, j as int),
            acc <= line,
            forall|k: int| 0 <= k < j ==> !hunk_covers_line(*parsed_diff, k, line as int),
        decreases n - j,
    {
        let cnt = line_count_str(parsed_diff.hunks[j].as_str());
        proof {
            assert(hunks[j as int] == parsed_diff.hunks@[j as int]@);
        }
        if line - acc < cnt {
            return Some(j);
        }
        acc = acc + cnt;
        j = j + 1;
    }
    None
}

/// Appending further whole hunks to a diff (at line granularity: the
/// added lines open with a range marker, or are nothing at all) leaves
/// the parsed header unchanged, while the hunk count grows by exactly
/// the number of added marker lines.
pub proof fn lemma_header_independent_of_hunks(ls: Seq<Seq<char>>, extra: Seq<Seq<char>>)
    requires
        extra.len() > 0 ==> is_hunk_start(extra[0]),
    ensures
        join_lines((ls + extra).take(next_marker(ls + extra, 0))) == join_lines(
            ls.take(next_marker(ls, 0)),
        ),
        marker_count_from(ls + extra, 0) == marker_count_from(ls, 0) + marker_count_from(
            extra,
            0,
        ),
{
    lemma_next_marker_bounds(ls, 0);
    let m = next_marker(ls, 0);
    if extra.len() == 0 {
        assert(ls + extra =~= ls);
        assert(marker_count_from(extra, 0) == 0);
    } else {
        if m < ls.len() {
            assert forall|k: int| 0 <= k < m implies !is_hunk_start((ls + extra)[k]) by {
                assert((ls + extra)[k] == ls[k]);
            }
            assert((ls + extra)[m] == ls[m]);
            lemma_next_marker_is(ls + extra, 0, m);
        } else {
            assert forall|k: int| 0 <= k < ls.len() implies !is_hunk_start((ls + extra)[k]) by {
                assert((ls + extra)[k] == ls[k]);
            }
            assert((ls + extra)[ls.len() as int] == extra[0]);
            lemma_next_marker_is(ls + extra, 0, ls.len() as int);
        }
        assert((ls + extra).take(next_marker(ls + extra, 0)) =~= ls.take(m));
        lemma_marker_count_concat(ls, extra, 0);
    }
}

/// The parsed header does not depend on how many hunks follow it: a
/// diff text that extends another by whole hunks (its lines are the
/// other's lines plus a tail that opens with a range marker, or adds
/// nothing) parses to the same header, and to one hunk more per added
/// marker line.
pub proof fn lemma_header_same_with_more_hunks(t1: Seq<char>, t2: Seq<char>, extra: Seq<Seq<char>>)
    requires
        split_lines(t2) == split_lines(t1) + extra,
        extra.len() > 0 ==> is_hunk_start(extra[0]),
    ensures
        parsed_header_of(t2) == parsed_header_of(t1),
        hunk_count_of(t2) == hunk_count_of(t1) + marker_count_from(extra, 0),
{
    lemma_header_independent_of_hunks(split_lines(t1), extra);
}

/// Markers in a concatenation split into markers of each part.
proof fn lemma_marker_count_concat(ls: Seq<Seq<char>>, extra: Seq<Seq<char>>, from: int)
    requires
        0 <= from <= ls.len(),
    ensures
        marker_count_from(ls + extra, from) == marker_count_from(ls, from) + marker_count_from(
            extra,
            0,
        ),
    decreases ls.len() - from,
{
    if from == ls.len() {
        lemma_marker_count_shift(ls, extra, 0);
    } else {
        assert((ls + extra)[from] == ls[from]);
        lemma_marker_count_concat(ls, extra, from + 1);
    }
}

/// Counting markers past the first part of a concatenation counts in
/// the second part alone.
proof fn lemma_marker_count_shift(ls: Seq<Seq<char>>, extra: Seq<Seq<char>>, k: int)
    requires
        0 <= k <= extra.len(),
    ensures
        marker_count_from(ls + extra, ls.len() + k) == marker_count_from(extra, k),
    decreases extra.len() - k,
{
    if k < extra.len() {
        assert((ls + extra)[ls.len() + k] == extra[k]);
        lemma_marker_count_shift(ls, extra, k + 1);
    }
}

/// Where the markers sit: marker `j` of the first `marker_count_from`
/// many is a real marker line with the right number of markers left
/// after it, and asking for one past the last lands at the end.
pub proof fn lemma_marker_index_count(lines: Seq<Seq<char>>, j: int)
    requires
        0 <= j <= marker_count_from(lines, 0),
    ensures
        0 <= marker_index(lines, j) <= lines.len(),
        marker_count_from(lines, marker_index(lines, j)) == marker_count_from(lines, 0) - j,
        j < marker_count_from(lines, 0) ==> marker_index(lines, j) < lines.len()
            && is_hunk_start(lines[marker_index(lines, j)]),
        j == marker_count_from(lines, 0) ==> marker_index(lines, j) == lines.len(),
    decreases j,
{
    let total = marker_count_from(lines, 0);
    if j == 0 {
        lemma_next_marker_bounds(lines, 0);
        lemma_marker_count_skip(lines, 0, next_marker(lines, 0));
    } else {
        lemma_marker_index_count(lines, j - 1);
        let prev = marker_index(lines, j - 1);
        assert(marker_count_from(lines, prev) == total - (j - 1));
        assert(prev < lines.len() && is_hunk_start(lines[prev]));
        assert(marker_count_from(lines, prev) == 1 + marker_count_from(lines, prev + 1));
        lemma_next_marker_bounds(lines, prev + 1);
        lemma_marker_count_skip(lines, prev + 1, next_marker(lines, prev + 1));
    }
    if j < total {
        assert(marker_count_from(lines, marker_index(lines, j)) > 0);
        if marker_index(lines, j) == lines.len() {
            assert(marker_count_from(lines, lines.len() as int) == 0);
        }
        lemma_next_marker_bounds(lines, if j == 0 {
            0
        } else {
            marker_index(lines, j - 1) + 1
        });
    }
}

/// The shape of a diff header, read off its newline-terminated form:
/// none of its lines opens a hunk.
pub open spec fn header_shaped(header: Seq<char>) -> bool {
    let ls = split_lines(header + seq!['\n']);
    forall|k: int| 0 <= k < ls.len() ==> !is_hunk_start(ls[k])
}

/// The shape of one hunk, read off its newline-terminated form: its
/// first line opens it and no later line opens another.
pub open spec fn hunk_shaped(hunk: Seq<char>) -> bool {
    let ls = split_lines(hunk + seq!['\n']);
    &&& ls.len() > 0
    &&& is_hunk_start(ls[0])
    &&& forall|k: int| 1 <= k < ls.len() ==> !is_hunk_start(ls[k])
}

/// What parsing produces is fit for patch building: the parsed header
/// has no marker line of its own, and every parsed hunk opens with its
/// marker and holds no second one.  Together with
/// `lemma_patch_is_self_sufficient` this shows that the patch built
/// from any parsed hunk re-parses to that header and that hunk alone.
pub proof fn lemma_parse_parts_are_shaped(text: Seq<char>, j: int)
    requires
        0 <= j < hunk_count_of(text),
    ensures
        header_shaped(parsed_header_of(text)),
        hunk_shaped(hunk_of(text, j)),
{
    let ls = split_lines(text);
    lemma_split_lines_no_newline(text);

    // The header's lines sit before the first marker.
    let m0 = next_marker(ls, 0);
    lemma_next_marker_bounds(ls, 0);
    let h = ls.take(m0);
    assert(forall|k: int| 0 <= k < h.len() ==> has_no_newline(#[trigger] h[k]));
    if h.len() == 0 {
        assert(parsed_header_of(text) + seq!['\n'] =~= seq!['\n']);
        lemma_line_end_no_newline(Seq::<char>::empty());
        assert(seq!['\n'].skip(1) =~= Seq::<char>::empty());
        assert(seq!['\n'].take(0) =~= Seq::<char>::empty());
        assert(split_lines(seq!['\n']) =~= seq![Seq::<char>::empty()]);
        assert(!is_hunk_start(Seq::<char>::empty()));
    } else {
        crate::text::lemma_split_join_lines(h);
        assert forall|k: int|
            0 <= k < split_lines(parsed_header_of(text) + seq!['\n']).len() implies !is_hunk_start(
            split_lines(parsed_header_of(text) + seq!['\n'])[k],
        ) by {
            assert(split_lines(parsed_header_of(text) + seq!['\n'])[k] == h[k]);
        }
    }

    // Hunk `j`'s lines run from its marker to the next one.
    lemma_marker_index_count(ls, j);
    lemma_marker_index_count(ls, j + 1);
    let a = marker_index(ls, j);
    let b = marker_index(ls, j + 1);
    lemma_next_marker_bounds(ls, a + 1);
    assert(b == next_marker(ls, a + 1));
    let k = ls.subrange(a, b);
    assert(a < b <= ls.len());
    assert(k.len() > 0);
    assert(is_hunk_start(k[0]));
    assert(forall|i: int| 1 <= i < k.len() ==> !is_hunk_start(#[trigger] k[i]));
    assert(forall|i: int| 0 <= i < k.len() ==> has_no_newline(#[trigger] k[i]));
    crate::text::lemma_split_join_lines(k);
    assert(split_lines(hunk_of(text, j) + seq!['\n']) =~= k);
}

/// The patch built for one hunk is self-sufficient: parsed on its own,
/// with none of the other hunks in sight, it shows exactly the shared
/// header and that one hunk.
pub proof fn lemma_patch_is_self_sufficient(header: Seq<char>, hunk: Seq<char>)
    requires
        header_shaped(header),
        hunk_shaped(hunk),
    ensures
        parsed_header_of(patch_text(header, hunk)) == header,
        hunk_count_of(patch_text(header, hunk)) == 1,
        hunk_of(patch_text(header, hunk), 0) == hunk,
{
    let hp = header + seq!['\n'];
    let kp = hunk + seq!['\n'];
    let h = split_lines(hp);
    let k = split_lines(kp);
    let patch = patch_text(header, hunk);
    assert(patch =~= hp + kp);
    crate::text::lemma_split_lines_concat(hp, kp);
    let ls = split_lines(patch);
    assert(ls == h + k);
    assert(h.len() > 0) by {
        crate::text::lemma_line_end_bounds(hp);
    }
    assert forall|j: int| 0 <= j < h.len() implies !is_hunk_start(ls[j]) by {
        assert(ls[j] == h[j]);
    }
    assert(is_hunk_start(ls[h.len() as int]));
    assert forall|j: int| h.len() < j < ls.len() implies !is_hunk_start(ls[j]) by {
        assert(ls[j] == k[j - h.len()]);
    }
    let m = h.len() as int;

    // The first marker sits right after the header's lines.
    lemma_next_marker_is(ls, 0, m);
    assert(ls.take(m) =~= h);
    crate::text::lemma_join_split_lines(header);
    assert(parsed_header_of(patch) == header);

    // That marker is the only one.
    lemma_marker_count_skip(ls, 0, m);
    lemma_marker_count_skip(ls, m + 1, ls.len() as int);
    assert(hunk_count_of(patch) == 1);

    // The one hunk runs from its marker to the end and joins back into
    // the hunk text.
    assert(marker_index(ls, 0) == m);
    lemma_next_marker_is(ls, m + 1, ls.len() as int);
    assert(marker_index(ls, 1) == ls.len());
    assert(ls.subrange(m, ls.len() as int) =~= k);
    crate::text::lemma_join_split_lines(hunk);
    assert(hunk_of(patch, 0) == hunk);
}

/// Isolating any hunk of a parsed diff into its standalone patch and
/// parsing that patch by itself yields the same header and exactly the
/// one hunk — nothing of the other hunks leaks in and nothing of the
/// chosen hunk is lost.
pub proof fn lemma_isolated_hunk_round_trip(text: Seq<char>, j: int)
    requires
        0 <= j < hunk_count_of(text),
    ensures
        parsed_header_of(patch_text(parsed_header_of(text), hunk_of(text, j)))
            == parsed_header_of(text),
        hunk_count_of(patch_text(parsed_header_of(text), hunk_of(text, j))) == 1,
        hunk_of(patch_text(parsed_header_of(text), hunk_of(text, j)), 0) == hunk_of(text, j),
{
    lemma_parse_parts_are_shaped(text, j);
    lemma_patch_is_self_sufficient(parsed_header_of(text), hunk_of(text, j));
}

/// Whether this line opens a hunk.
pub fn is_hunk_start_line(line: &Vec<char>) -> (b: bool)
    ensures
        b == is_hunk_start(line@),
{
    line.len() >= 2 && line[0] == '@' && line[1] == '@'
}

/// `parsed` is the parse of `text`: its header is everything before
/// the first range marker, and it has one hunk per marker line, each
/// running up to the next marker or the end.
pub open spec fn is_parse_of(parsed: ParsedDiff, text: Seq<char>) -> bool {
    &&& parsed.header@ == parsed_header_of(text)
    &&& parsed.hunks@.len() == hunk_count_of(text)
    &&& forall|j: int|
        0 <= j < parsed.hunks@.len() ==> parsed.hunks.deep_view()[j] == hunk_of(text, j)
}

/// Splits diff text into its header and its hunks.
///
/// Every line before the first range-marker line belongs to the header;
/// each marker line opens a hunk that runs until the next marker or the
/// end of the text.  A text without markers is all header, and a text
/// that opens with a marker has an empty header.
pub fn parse_diff_output(diff_output: &str) -> (parsed: ParsedDiff)
    ensures
        is_parse_of(parsed, diff_output@),
{
    broadcast use crate::text::lemma_vec_char_deep_view;

    let chars = str_chars(diff_output);
    let lines = split_lines_vec(&chars);
    let ghost ls = split_lines(diff_output@);
    proof {
        assert(ls == lines.deep_view());
        assert(ls.len() == lines@.len());
    }
    let n = lines.len();

    let mut header: Vec<char> = Vec::new();
    let mut i: usize = 0;
    proof {
        assert(ls.take(0) =~= Seq::<Seq<char>>::empty());
    }
    while i < n && !is_hunk_start_line(&lines[i])
        invariant
            0 <= i <= n,
            n == lines@.len(),
            ls == lines.deep_view(),
            ls == split_lines(diff_output@),
            forall|k: int| 0 <= k < i ==> !is_hunk_start(ls[k]),
            header@ == join_lines(ls.take(i as int)),
        decreases n - i,
    {
        if i > 0 {
            header.push('\n');
        }
        push_all(&mut header, &lines[i]);
        proof {
            assert(ls[i as int] == lines@[i as int]@);
            assert(ls.take(i + 1) =~= ls.take(i as int).push(ls[i as int]));
            crate::text::lemma_join_lines_push(ls.take(i as int), ls[i as int]);
        }
        i = i + 1;
    }
    proof {
        lemma_next_marker_is(ls, 0, i as int);
        lemma_marker_count_skip(ls, 0, i as int);
    }

    let mut hunks: Vec<String> = Vec::new();
    while i < n
        invariant
            0 <= i <= n,
            n == lines@.len(),
            ls == lines.deep_view(),
            ls == split_lines(diff_output@),
            i < n ==> is_hunk_start(ls[i as int]),
            marker_index(ls, hunks@.len() as int) == i as int,
            marker_count_from(ls, 0) == hunks@.len() + marker_count_from(ls, i as int),
            forall|j: int|
                0 <= j < hunks@.len() ==> hunks.deep_view()[j] == join_lines(
                    ls.subrange(marker_index(ls, j), marker_index(ls, j + 1)),
                ),
            header@ == parsed_header_of(diff_output@),
        decreases n - i,
    {
        let ghost h = hunks@.len() as int;
        let mut hunk: Vec<char> = Vec::new();
        push_all(&mut hunk, &lines[i]);
        proof {
            assert(ls[i as int] == lines@[i as int]@);
            assert(ls.subrange(i as int, i + 1) =~= seq![ls[i as int]]);
        }
        let mut j = i + 1;
        while j < n && !is_hunk_start_line(&lines[j])
            invariant
                0 <= i < j <= n,
                n == lines@.len(),
                ls == lines.deep_view(),
                forall|k: int| i < k < j ==> !is_hunk_start(ls[k]),
                hunk@ == join_lines(ls.subrange(i as int, j as int)),
            decreases n - j,
        {
            hunk.push('\n');
            push_all(&mut hunk, &lines[j]);
            proof {
                assert(ls[j as int] == lines@[j as int]@);
                assert(ls.subrange(i as int, j + 1) =~= ls.subrange(i as int, j as int).push(
                    ls[j as int],
                ));
                crate::text::lemma_join_lines_push(ls.subrange(i as int, j as int), ls[j as int]);
            }
            j = j + 1;
        }
        proof {
            lemma_next_marker_is(ls, i + 1, j as int);
            assert(marker_index(ls, h + 1) == j as int);
            lemma_marker_count_skip(ls, i + 1, j as int);
            assert(marker_count_from(ls, i as int) == 1 + marker_count_from(ls, j as int));
        }
        let s = chars_string(&hunk);
        let ghost prev = hunks.deep_view();
        hunks.push(s);
        proof {
            assert(hunks.deep_view() =~~= prev.push(hunk@));
        }
        i = j;
    }
    proof {
        assert(marker_count_from(ls, n as int) == 0);
    }
    ParsedDiff { header: chars_string(&header), hunks }
}

} // verus!
