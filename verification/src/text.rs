//! Line-oriented text model.
//!
//! Diff text is a sequence of lines separated by `'\n'`, where a trailing
//! newline does not open an empty final line.  `split_lines` and
//! `join_lines` are the two spec-level views of that convention, and the
//! executable functions here convert between a flat character buffer and
//! its lines.

use vstd::prelude::*;

verus! {

/// Index of the first `'\n'` in `s`, or `s.len()` if there is none.
pub open spec fn line_end(s: Seq<char>) -> int
    decreases s.len(),
{
    if s.len() == 0 {
        0
    } else if s[0] == '\n' {
        0
    } else {
        1 + line_end(s.skip(1))
    }
}

/// The lines of `s`: segments between `'\n'` characters.  A trailing
/// newline terminates the last line rather than opening an empty one,
/// so `"a\n"` has the single line `"a"` and `""` has no lines.
pub open spec fn split_lines(s: Seq<char>) -> Seq<Seq<char>>
    decreases s.len(),
{
    if s.len() == 0 {
        Seq::empty()
    } else {
        let e = line_end(s);
        if 0 <= e < s.len() {
            seq![s.take(e)] + split_lines(s.skip(e + 1))
        } else {
            seq![s]
        }
    }
}

/// The lines joined back into flat text with a single `'\n'` between
/// consecutive lines and none at the end.
pub open spec fn join_lines(lines: Seq<Seq<char>>) -> Seq<char>
    decreases lines.len(),
{
    if lines.len() == 0 {
        Seq::empty()
    } else if lines.len() == 1 {
        lines[0]
    } else {
        lines[0] + seq!['\n'] + join_lines(lines.skip(1))
    }
}

/// True when no character of `s` is a line break.
pub open spec fn has_no_newline(s: Seq<char>) -> bool {
    forall|i: int| 0 <= i < s.len() ==> s[i] != '\n'
}

pub proof fn lemma_line_end_bounds(s: Seq<char>)
    ensures
        0 <= line_end(s) <= s.len(),
        line_end(s) < s.len() ==> s[line_end(s)] == '\n',
        has_no_newline(s.take(line_end(s))),
    decreases s.len(),
{
    if s.len() == 0 {
    } else if s[0] == '\n' {
        assert(s.take(0) =~= Seq::empty());
    } else {
        lemma_line_end_bounds(s.skip(1));
        let e = line_end(s);
        assert(s.skip(1).take(e - 1) =~= s.take(e).skip(1));
        assert forall|i: int| 0 <= i < e implies s.take(e)[i] != '\n' by {
            if i > 0 {
                assert(s.take(e)[i] == s.skip(1).take(e - 1)[i - 1]);
            }
        }
    }
}

/// A sequence without line breaks is its own single line (or no line at
/// all when it is empty).
pub proof fn lemma_line_end_no_newline(s: Seq<char>)
    requires
        has_no_newline(s),
    ensures
        line_end(s) == s.len(),
        s.len() > 0 ==> split_lines(s) =~= seq![s],
        s.len() == 0 ==> split_lines(s) =~= Seq::<Seq<char>>::empty(),
    decreases s.len(),
{
    if s.len() > 0 {
        assert(forall|i: int| 0 <= i < s.skip(1).len() ==> s.skip(1)[i] == s[i + 1]);
        lemma_line_end_no_newline(s.skip(1));
    }
}

/// Splitting `head + '\n' + tail` yields `head` as the first line,
/// followed by the lines of `tail`, provided `head` itself has no break.
pub proof fn lemma_split_lines_step(head: Seq<char>, tail: Seq<char>)
    requires
        has_no_newline(head),
    ensures
        split_lines(head + seq!['\n'] + tail) =~= seq![head] + split_lines(tail),
{
    let s = head + seq!['\n'] + tail;
    let t2 = seq!['\n'] + tail;
    assert(t2[0] == '\n');
    lemma_line_end_concat(head, t2);
    assert(s =~= head + t2);
    assert(line_end(s) == head.len());
    assert(s.take(head.len() as int) =~= head);
    assert(s.skip(head.len() + 1 as int) =~= tail);
    if head.len() + 1 == s.len() {
        assert(tail.len() == 0);
    }
}

/// `line_end` of a concatenation whose first part has no line break and
/// whose second part starts with one.
proof fn lemma_line_end_concat(head: Seq<char>, tail: Seq<char>)
    requires
        has_no_newline(head),
        tail.len() > 0,
        tail[0] == '\n',
    ensures
        line_end(head + tail) == head.len(),
    decreases head.len(),
{
    let s = head + tail;
    if head.len() == 0 {
        assert(s =~= tail);
    } else {
        assert(head[0] != '\n');
        assert(s[0] == head[0]);
        assert(s.skip(1) =~= head.skip(1) + tail);
        assert(forall|i: int| 0 <= i < head.skip(1).len() ==> head.skip(1)[i] == head[i + 1]);
        lemma_line_end_concat(head.skip(1), tail);
    }
}

/// Appending one more line to a joined text inserts one separator
/// (or nothing but the line itself, when the text was empty).
pub proof fn lemma_join_lines_push(lines: Seq<Seq<char>>, line: Seq<char>)
    ensures
        lines.len() == 0 ==> join_lines(lines.push(line)) =~= line,
        lines.len() > 0 ==> join_lines(lines.push(line)) =~= join_lines(lines) + seq!['\n']
            + line,
    decreases lines.len(),
{
    if lines.len() == 0 {
        assert(lines.push(line)[0] =~= line);
    } else if lines.len() == 1 {
        let p = lines.push(line);
        assert(p.len() == 2);
        assert(p.skip(1) =~= seq![line]);
        assert(join_lines(p.skip(1)) =~= line);
    } else {
        let p = lines.push(line);
        assert(p.skip(1) =~= lines.skip(1).push(line));
        lemma_join_lines_push(lines.skip(1), line);
    }
}

/// A line break inside the first part settles `line_end` for any
/// concatenation.
proof fn lemma_line_end_concat_in_first(a: Seq<char>, b: Seq<char>)
    requires
        line_end(a) < a.len(),
    ensures
        line_end(a + b) == line_end(a),
    decreases a.len(),
{
    lemma_line_end_bounds(a);
    let s = a + b;
    if a[0] == '\n' {
    } else {
        assert(s[0] == a[0]);
        assert(s.skip(1) =~= a.skip(1) + b);
        assert(line_end(a) == 1 + line_end(a.skip(1)));
        lemma_line_end_concat_in_first(a.skip(1), b);
    }
}

/// Text that ends on a line boundary splits independently of what
/// follows it.
pub proof fn lemma_split_lines_concat(u: Seq<char>, t: Seq<char>)
    requires
        u.len() > 0,
        u.last() == '\n',
    ensures
        split_lines(u + t) =~= split_lines(u) + split_lines(t),
    decreases u.len(),
{
    lemma_line_end_bounds(u);
    let e = line_end(u);
    assert(e < u.len()) by {
        if e == u.len() {
            assert(u.take(e)[u.len() - 1] == '\n');
        }
    }
    lemma_line_end_concat_in_first(u, t);
    assert((u + t).take(e) =~= u.take(e));
    assert((u + t).skip(e + 1) =~= u.skip(e + 1) + t);
    let rest = u.skip(e + 1);
    if rest.len() == 0 {
        assert(u.skip(e + 1) + t =~= t);
        lemma_line_end_no_newline(rest);
        assert(split_lines(u) =~= seq![u.take(e)]);
    } else {
        assert(rest.last() == u.last());
        lemma_split_lines_concat(rest, t);
    }
}

/// Splitting a newline-terminated text and joining the lines again
/// recovers the text without its final break: the two views invert.
pub proof fn lemma_join_split_lines(s: Seq<char>)
    ensures
        join_lines(split_lines(s + seq!['\n'])) =~= s,
    decreases s.len(),
{
    let u = s + seq!['\n'];
    assert(u.last() == '\n');
    lemma_line_end_bounds(u);
    let e = line_end(u);
    assert(e < u.len()) by {
        if e == u.len() {
            assert(u.take(e)[u.len() - 1] == '\n');
        }
    }
    if e == s.len() {
        assert(u.take(e) =~= s);
        assert(u.skip(e + 1) =~= Seq::<char>::empty());
        lemma_line_end_no_newline(u.skip(e + 1));
        assert(split_lines(u) =~= seq![s]);
    } else {
        assert(s[e] == '\n');
        assert(u.skip(e + 1) =~= s.skip(e + 1) + seq!['\n']);
        assert(u.take(e) =~= s.take(e));
        lemma_join_split_lines(s.skip(e + 1));
        let rest = split_lines(s.skip(e + 1) + seq!['\n']);
        assert(rest.len() > 0) by {
            let v = s.skip(e + 1) + seq!['\n'];
            assert(v.len() > 0);
        }
        assert(split_lines(u) =~= seq![s.take(e)] + rest);
        let whole = seq![s.take(e)] + rest;
        assert(whole.len() >= 2);
        assert(whole[0] == s.take(e));
        assert(whole.skip(1) =~= rest);
        assert(join_lines(whole) =~= s.take(e) + seq!['\n'] + join_lines(rest));
        assert(s.take(e) + seq!['\n'] + s.skip(e + 1) =~= s);
    }
}

/// No line of a split carries a line break of its own.
pub proof fn lemma_split_lines_no_newline(s: Seq<char>)
    ensures
        forall|k: int|
            0 <= k < split_lines(s).len() ==> has_no_newline(#[trigger] split_lines(s)[k]),
    decreases s.len(),
{
    if s.len() > 0 {
        lemma_line_end_bounds(s);
        let e = line_end(s);
        if e < s.len() {
            lemma_split_lines_no_newline(s.skip(e + 1));
            assert forall|k: int|
                0 <= k < split_lines(s).len() implies has_no_newline(
                #[trigger] split_lines(s)[k],
            ) by {
                if k > 0 {
                    assert(split_lines(s)[k] == split_lines(s.skip(e + 1))[k - 1]);
                }
            }
        } else {
            assert(s.take(e) =~= s);
        }
    }
}

/// Joining break-free lines and splitting at the closing newline
/// recovers the lines: the inverse of `lemma_join_split_lines`.
pub proof fn lemma_split_join_lines(lines: Seq<Seq<char>>)
    requires
        lines.len() > 0,
        forall|k: int| 0 <= k < lines.len() ==> has_no_newline(#[trigger] lines[k]),
    ensures
        split_lines(join_lines(lines) + seq!['\n']) =~= lines,
    decreases lines.len(),
{
    let first = lines[0];
    if lines.len() == 1 {
        lemma_split_lines_step(first, Seq::empty());
        assert(first + seq!['\n'] + Seq::<char>::empty() =~= join_lines(lines) + seq!['\n']);
    } else {
        let rest = lines.skip(1);
        lemma_split_join_lines(rest);
        lemma_split_lines_step(first, join_lines(rest) + seq!['\n']);
        assert(first + seq!['\n'] + (join_lines(rest) + seq!['\n']) =~= join_lines(lines)
            + seq!['\n']);
        assert(seq![first] + split_lines(join_lines(rest) + seq!['\n']) =~= lines);
    }
}

/// A vector of characters is its own deep view.
pub broadcast proof fn lemma_vec_char_deep_view(v: Vec<char>)
    ensures
        #[trigger] v.deep_view() == v@,
{
    assert(v.deep_view() =~= v@);
}

/// Appends every character of `src` to `dst`.
pub fn push_all(dst: &mut Vec<char>, src: &Vec<char>)
    ensures
        final(dst)@ == old(dst)@ + src@,
{
    let n = src.len();
    let mut k: usize = 0;
    proof {
        assert(old(dst)@ + src@.take(0) =~= old(dst)@);
    }
    while k < n
        invariant
            k <= n,
            n == src@.len(),
            dst@ == old(dst)@ + src@.take(k as int),
        decreases n - k,
    {
        dst.push(src[k]);
        proof {
            assert(old(dst)@ + src@.take(k + 1) =~= (old(dst)@ + src@.take(k as int)).push(
                src@[k as int],
            ));
        }
        k = k + 1;
    }
    proof {
        assert(src@.take(n as int) =~= src@);
    }
}

/// How many lines a text has.
pub open spec fn line_count(s: Seq<char>) -> nat {
    split_lines(s).len()
}

/// Counts the lines of `s`.
pub fn line_count_str(s: &str) -> (n: usize)
    ensures
        n == line_count(s@),
{
    let chars = str_chars(s);
    let lines = split_lines_vec(&chars);
    lines.len()
}

/// The characters of `s`, in order, as a vector.
pub fn str_chars(s: &str) -> (v: Vec<char>)
    ensures
        v@ == s@,
{
    let mut v: Vec<char> = Vec::new();
    let cs = s.chars();
    for c in it: cs
        invariant
            it.seq() == s@,
            v@ =~= it.seq().take(it.index()),
    {
        v.push(c);
    }
    v
}

/// Relies on `String`'s `FromIterator` impl: collecting characters
/// builds the string that holds exactly those characters in order.
#[verifier::external_body]
pub fn chars_string(v: &Vec<char>) -> (s: String)
    ensures
        s@ == v@,
{
    v.iter().collect()
}

/// Relies on `String::push`: it appends the one character to the end.
#[verifier::external_body]
pub fn string_push(s: &mut String, c: char)
    ensures
        final(s)@ == old(s)@.push(c),
{
    s.push(c);
}

/// Relies on `String::pop`: it removes and returns the last character,
/// or does nothing to an empty string.
#[verifier::external_body]
pub fn string_pop(s: &mut String) -> (r: Option<char>)
    ensures
        old(s)@.len() == 0 ==> final(s)@ == old(s)@ && r is None,
        old(s)@.len() > 0 ==> final(s)@ == old(s)@.drop_last() && r == Some(old(s)@.last()),
{
    s.pop()
}

/// Cuts a character buffer into its lines.
pub fn split_lines_vec(v: &Vec<char>) -> (lines: Vec<Vec<char>>)
    ensures
        lines.deep_view() == split_lines(v@),
{
    let mut lines: Vec<Vec<char>> = Vec::new();
    let mut cur: Vec<char> = Vec::new();
    let n = v.len();
    let mut i: usize = 0;
    proof {
        assert(cur@ + v@.skip(0) =~= v@);
        assert(lines.deep_view() + split_lines(v@) =~= split_lines(v@));
    }
    while i < n
        invariant
            n == v@.len(),
            0 <= i <= n,
            has_no_newline(cur@),
            split_lines(v@) == lines.deep_view() + split_lines(cur@ + v@.skip(i as int)),
        decreases n - i,
    {
        let c = v[i];
        if c == '\n' {
            proof {
                assert(cur@ + v@.skip(i as int) =~= cur@ + seq!['\n'] + v@.skip(i + 1));
                lemma_split_lines_step(cur@, v@.skip(i + 1));
            }
            let ghost prev = lines.deep_view();
            let ghost curv = cur@;
            lines.push(cur);
            cur = Vec::new();
            proof {
                assert(lines.deep_view() =~~= prev.push(curv));
                assert(prev.push(curv) + split_lines(v@.skip(i + 1)) =~= prev + (seq![curv]
                    + split_lines(v@.skip(i + 1))));
            }
        } else {
            proof {
                assert(cur@ + v@.skip(i as int) =~= cur@.push(c) + v@.skip(i + 1));
            }
            cur.push(c);
        }
        i = i + 1;
    }
    proof {
        assert(cur@ + v@.skip(n as int) =~= cur@);
        lemma_line_end_no_newline(cur@);
    }
    if cur.len() > 0 {
        let ghost prev = lines.deep_view();
        let ghost curv = cur@;
        lines.push(cur);
        proof {
            assert(lines.deep_view() =~~= prev.push(curv));
            assert(prev.push(curv) =~= prev + seq![curv]);
        }
    }
    lines
}

} // verus!
