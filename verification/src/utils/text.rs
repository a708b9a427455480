//! Docstrings as they are written into generated code.

use crate::text::{
    char_is_space, chars_of, copy_range, is_space, join, join_chars, push_item, split_at_char,
    split_char, string_of, trim, trim_end, trim_end_bound, trimmed, views,
};
use vstd::prelude::*;

verus! {

/// The lines of `s`: the pieces between its line feeds, without the empty
/// piece behind a last line feed.
pub open spec fn lines(s: Seq<char>) -> Seq<Seq<char>> {
    let pieces = split_at_char(s, '\n', Seq::empty());
    if pieces.len() > 0 && pieces.last().len() == 0 {
        pieces.drop_last()
    } else {
        pieces
    }
}

/// `s` with the white space taken from both ends of each of its lines.
pub open spec fn trimmed_lines(s: Seq<char>) -> Seq<char> {
    join(lines(s).map_values(|l: Seq<char>| trim(l)), seq!['\n'])
}

/// `s` without the slashes at its end, and without the white space that
/// stands before each of them.
pub open spec fn without_trailing_slashes(s: Seq<char>) -> Seq<char>
    decreases s.len(),
{
    if s.len() > 0 && s.last() == '/' {
        if trim_end(s.drop_last()).len() < s.len() {
            without_trailing_slashes(trim_end(s.drop_last()))
        } else {
            s
        }
    } else {
        s
    }
}

/// `s` where, of neighbours that are the same character and satisfy `p`, only
/// the first is kept.
pub open spec fn deduplicated(s: Seq<char>, p: spec_fn(char) -> bool) -> Seq<char>
    decreases s.len(),
{
    if s.len() == 0 {
        Seq::empty()
    } else {
        let init = deduplicated(s.drop_last(), p);
        if p(s.last()) && s.len() >= 2 && s[s.len() - 2] == s.last() {
            init
        } else {
            init.push(s.last())
        }
    }
}

/// `s` without the line feeds at its start.
pub open spec fn without_leading_feeds(s: Seq<char>) -> Seq<char>
    decreases s.len(),
{
    if s.len() > 0 && s[0] == '\n' {
        without_leading_feeds(s.skip(1))
    } else {
        s
    }
}

/// `s`, which ends with a line feed, with only one line feed at its end.
pub open spec fn with_single_final_feed(s: Seq<char>) -> Seq<char>
    decreases s.len(),
{
    if s.len() >= 2 && s[s.len() - 1] == '\n' && s[s.len() - 2] == '\n' {
        with_single_final_feed(s.drop_last())
    } else {
        s
    }
}

/// A docstring of several lines starts with text and ends with exactly one
/// line feed; one of a single line is left as it is.
pub open spec fn with_framed_lines(s: Seq<char>) -> Seq<char> {
    if s.contains('\n') {
        let t = without_leading_feeds(s);
        if t.len() > 0 && t.last() == '\n' {
            with_single_final_feed(t)
        } else {
            t.push('\n')
        }
    } else {
        s
    }
}

/// Whether `c` is white space other than a line feed.
pub open spec fn is_blank(c: char) -> bool {
    is_space(c) && c != '\n'
}

/// The docstring `s` as it is written into generated code: each line
/// trimmed, slashes at the end removed, runs of one blank and runs of
/// backticks reduced to one, several lines framed, and one space in front.
pub open spec fn formatted_docstring(s: Seq<char>) -> Seq<char> {
    seq![' '] + with_framed_lines(
        deduplicated(
            deduplicated(without_trailing_slashes(trimmed_lines(s)), |c: char| is_blank(c)),
            |c: char| c == '`',
        ),
    )
}

/// Trims each line of `s`.
fn trim_lines(s: &Vec<char>) -> (out: Vec<char>)
    ensures
        out@ == trimmed_lines(s@),
{
    assert(s@.subrange(0, s.len() as int) =~= s@);
    let mut pieces = split_char(s, 0, s.len(), '\n');
    let ghost all = views(pieces@);
    if pieces.len() > 0 && pieces[pieces.len() - 1].len() == 0 {
        proof {
            crate::text::lemma_views_take(pieces@, pieces.len() - 1);
        }
        pieces.truncate(pieces.len() - 1);
        assert(views(pieces@) =~= all.drop_last());
    }
    assert(views(pieces@) == lines(s@));
    let ghost goal = lines(s@).map_values(|l: Seq<char>| trim(l));
    let mut cut: Vec<Vec<char>> = Vec::new();
    let mut i: usize = 0;
    assert(views(cut@) =~= goal.take(0));
    while i < pieces.len()
        invariant
            i <= pieces.len(),
            views(pieces@) == lines(s@),
            goal == lines(s@).map_values(|l: Seq<char>| trim(l)),
            views(cut@) == goal.take(i as int),
        decreases pieces.len() - i,
    {
        let piece = trimmed(&pieces[i]);
        assert(views(pieces@)[i as int] == pieces@[i as int]@);
        push_item(&mut cut, piece);
        assert(views(cut@) =~= goal.take(i as int + 1));
        i += 1;
    }
    assert(goal.take(pieces.len() as int) =~= goal);
    assert(views(cut@).subrange(0, cut.len() as int) =~= views(cut@));
    join_chars(&cut, 0, cut.len(), '\n')
}

/// Removes the slashes at the end of `s`.
fn strip_trailing_slashes(s: &mut Vec<char>)
    ensures
        final(s)@ == without_trailing_slashes(old(s)@),
{
    while s.len() > 0 && s[s.len() - 1] == '/'
        invariant
            without_trailing_slashes(s@) == without_trailing_slashes(old(s)@),
        decreases s.len(),
    {
        let ghost before = s@;
        let end = trim_end_bound(s, 0, s.len() - 1);
        assert(before.subrange(0, before.len() - 1) =~= before.drop_last());
        s.truncate(end);
        assert(s@ =~= trim_end(before.drop_last()));
    }
}

/// Removes from `input` the characters that repeat their left neighbour and
/// satisfy `predicate`, which computes `p`.
fn conditioned_dedup<F: Fn(char) -> bool>(
    input: &mut String,
    predicate: F,
    Ghost(p): Ghost<spec_fn(char) -> bool>,
)
    requires
        forall|c: char| predicate.requires((c,)),
        forall|c: char, b: bool| predicate.ensures((c,), b) ==> b == p(c),
    ensures
        final(input)@ == deduplicated(old(input)@, p),
{
    let s = chars_of(input.as_str());
    let mut out: Vec<char> = Vec::new();
    let mut i: usize = 0;
    assert(s@.take(0) =~= Seq::<char>::empty());
    while i < s.len()
        invariant
            i <= s.len(),
            forall|c: char| predicate.requires((c,)),
            forall|c: char, b: bool| predicate.ensures((c,), b) ==> b == p(c),
            out@ == deduplicated(s@.take(i as int), p),
        decreases s.len() - i,
    {
        let ghost next = s@.take(i as int + 1);
        assert(next.drop_last() =~= s@.take(i as int));
        let c = s[i];
        let hit = predicate(c);
        assert(hit == p(c));
        if !(hit && i >= 1 && s[i - 1] == c) {
            out.push(c);
        }
        i += 1;
    }
    assert(s@.take(s.len() as int) =~= s@);
    *input = string_of(&out);
}

/// Puts a docstring of several lines between text and one final line feed.
fn frame_lines(s: &mut Vec<char>)
    ensures
        final(s)@ == with_framed_lines(old(s)@),
{
    let mut has_feed = false;
    let mut k: usize = 0;
    while k < s.len()
        invariant
            k <= s.len(),
            s@ == old(s)@,
            has_feed == s@.take(k as int).contains('\n'),
        decreases s.len() - k,
    {
        let ghost next = s@.take(k as int + 1);
        assert(next.drop_last() =~= s@.take(k as int));
        assert(next =~= s@.take(k as int).push(s@[k as int]));
        if s[k] == '\n' {
            has_feed = true;
            assert(next[k as int] == '\n');
        } else if has_feed {
            let ghost j = choose|j: int| 0 <= j < k && s@.take(k as int)[j] == '\n';
            assert(next[j] == '\n');
        } else {
            assert forall|j: int| 0 <= j < next.len() implies next[j] != '\n' by {
                if j < k {
                    assert(s@.take(k as int)[j] == next[j]);
                }
            }
        }
        k += 1;
    }
    assert(s@.take(s.len() as int) =~= s@);
    if !has_feed {
        return ;
    }
    let mut start: usize = 0;
    assert(s@.skip(0) =~= s@);
    while start < s.len() && s[start] == '\n'
        invariant
            start <= s.len(),
            s@ == old(s)@,
            without_leading_feeds(s@.skip(start as int)) == without_leading_feeds(s@),
        decreases s.len() - start,
    {
        assert(s@.skip(start as int).skip(1) =~= s@.skip(start as int + 1));
        start += 1;
    }
    let mut t = copy_range(s, start, s.len());
    assert(t@ =~= without_leading_feeds(s@));
    if t.len() > 0 && t[t.len() - 1] == '\n' {
        while t.len() >= 2 && t[t.len() - 1] == '\n' && t[t.len() - 2] == '\n'
            invariant
                with_single_final_feed(t@) == with_single_final_feed(
                    without_leading_feeds(old(s)@),
                ),
            decreases t.len(),
        {
            let ghost before = t@;
            t.pop();
            assert(t@ =~= before.drop_last());
        }
    } else {
        t.push('\n');
    }
    *s = t;
}

/// Brings a docstring into the form in which it is written into generated
/// code.
pub fn format_docstring(docstring: &mut String)
    ensures
        final(docstring)@ == formatted_docstring(old(docstring)@),
{
    let s = chars_of(docstring.as_str());
    let mut t = trim_lines(&s);
    strip_trailing_slashes(&mut t);
    let mut text = string_of(&t);
    let blank = |c: char| -> (b: bool)
        ensures
            b == is_blank(c),
        { char_is_space(c) && c != '\n' };
    conditioned_dedup(&mut text, blank, Ghost(|c: char| is_blank(c)));
    let tick = |c: char| -> (b: bool)
        ensures
            b == (c == '`'),
        { c == '`' };
    conditioned_dedup(&mut text, tick, Ghost(|c: char| c == '`'));
    let mut u = chars_of(text.as_str());
    frame_lines(&mut u);
    let mut out: Vec<char> = Vec::new();
    out.push(' ');
    let mut i: usize = 0;
    while i < u.len()
        invariant
            i <= u.len(),
            out@ == seq![' '] + u@.take(i as int),
        decreases u.len() - i,
    {
        out.push(u[i]);
        assert(out@ =~= seq![' '] + u@.take(i as int + 1));
        i += 1;
    }
    assert(u@.take(u.len() as int) =~= u@);
    *docstring = string_of(&out);
}

} // verus!
