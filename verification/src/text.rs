//! Character-level text helpers shared by the other modules.
//!
//! Texts are modelled as `Seq<char>`. The executable functions work on
//! `Vec<char>` and on ranges of it, so that every step is a plain loop.

use vstd::prelude::*;

verus! {

/// Whether `c` has the Unicode `White_Space` property.
pub open spec fn is_space(c: char) -> bool {
    let n = c as u32;
    (0x09 <= n && n <= 0x0D) || n == 0x20 || n == 0x85 || n == 0xA0 || n == 0x1680 || (0x2000 <= n
        && n <= 0x200A) || n == 0x2028 || n == 0x2029 || n == 0x202F || n == 0x205F || n == 0x3000
}

/// Tests the `White_Space` property of one character.
pub fn char_is_space(c: char) -> (b: bool)
    ensures
        b == is_space(c),
{
    let n: u32 = c as u32;
    (0x09 <= n && n <= 0x0D) || n == 0x20 || n == 0x85 || n == 0xA0 || n == 0x1680 || (0x2000 <= n
        && n <= 0x200A) || n == 0x2028 || n == 0x2029 || n == 0x202F || n == 0x205F || n == 0x3000
}

/// The characters of `s`, in order.
pub fn chars_of(s: &str) -> (v: Vec<char>)
    ensures
        v@ == s@,
{
    let mut v: Vec<char> = Vec::new();
    for c in it: s.chars()
        invariant
            v@ == it.seq().take(it.index()),
            it.seq() == s@,
    {
        v.push(c);
    }
    v
}

/// Appends one character to a string. The contract restates the documented
/// behaviour of `String::push`: the string grows by exactly that character.
#[verifier::external_body]
pub(crate) fn push_char(s: &mut String, c: char)
    ensures
        final(s)@ == old(s)@.push(c),
{
    s.push(c)
}

/// The string that holds the characters `v[lo..hi]`.
pub fn string_of_range(v: &Vec<char>, lo: usize, hi: usize) -> (s: String)
    requires
        lo <= hi <= v.len(),
    ensures
        s@ == v@.subrange(lo as int, hi as int),
{
    let mut s = String::new();
    let mut i: usize = lo;
    while i < hi
        invariant
            lo <= i <= hi <= v.len(),
            s@ == v@.subrange(lo as int, i as int),
        decreases hi - i,
    {
        push_char(&mut s, v[i]);
        assert(v@.subrange(lo as int, i as int).push(v@[i as int]) =~= v@.subrange(
            lo as int,
            i as int + 1,
        ));
        i += 1;
    }
    s
}

/// The string that holds the characters of `v`.
pub fn string_of(v: &Vec<char>) -> (s: String)
    ensures
        s@ == v@,
{
    let s = string_of_range(v, 0, v.len());
    assert(v@.subrange(0, v.len() as int) =~= v@);
    s
}

/// Whether two texts hold the same characters.
pub fn str_eq(a: &str, b: &str) -> (r: bool)
    ensures
        r == (a@ == b@),
{
    let x = chars_of(a);
    let y = chars_of(b);
    chars_eq(&x, &y)
}

/// Whether two character vectors hold the same characters.
pub fn chars_eq(a: &Vec<char>, b: &Vec<char>) -> (r: bool)
    ensures
        r == (a@ == b@),
{
    if a.len() != b.len() {
        return false;
    }
    let mut i: usize = 0;
    while i < a.len()
        invariant
            i <= a.len(),
            a.len() == b.len(),
            a@.take(i as int) == b@.take(i as int),
        decreases a.len() - i,
    {
        if a[i] != b[i] {
            return false;
        }
        assert(a@.take(i as int + 1) =~= a@.take(i as int).push(a@[i as int]));
        assert(b@.take(i as int + 1) =~= b@.take(i as int).push(b@[i as int]));
        i += 1;
    }
    assert(a@.take(a.len() as int) =~= a@);
    assert(b@.take(b.len() as int) =~= b@);
    true
}

/// Whether `pat` occurs in `s` at position `at`.
pub open spec fn occurs_at(s: Seq<char>, pat: Seq<char>, at: int) -> bool {
    0 <= at && at + pat.len() <= s.len() && s.subrange(at, at + pat.len()) == pat
}

/// Tests whether `pat` occurs in `s` at position `at`.
pub fn matches_at(s: &Vec<char>, pat: &Vec<char>, at: usize) -> (r: bool)
    ensures
        r == occurs_at(s@, pat@, at as int),
{
    if at > s.len() || pat.len() > s.len() - at {
        return false;
    }
    let mut i: usize = 0;
    while i < pat.len()
        invariant
            i <= pat.len(),
            at + pat.len() <= s.len(),
            s@.subrange(at as int, at + i) == pat@.take(i as int),
        decreases pat.len() - i,
    {
        if s[at + i] != pat[i] {
            assert(s@.subrange(at as int, at + pat.len())[i as int] != pat@[i as int]);
            return false;
        }
        assert(s@.subrange(at as int, at + i + 1) =~= s@.subrange(at as int, at + i).push(
            s@[at + i],
        ));
        assert(pat@.take(i as int + 1) =~= pat@.take(i as int).push(pat@[i as int]));
        i += 1;
    }
    assert(pat@.take(pat.len() as int) =~= pat@);
    true
}

/// Whether `s` begins with `pat`.
pub open spec fn has_prefix(s: Seq<char>, pat: Seq<char>) -> bool {
    occurs_at(s, pat, 0)
}

/// Whether `s` ends with `pat`.
pub open spec fn has_suffix(s: Seq<char>, pat: Seq<char>) -> bool {
    occurs_at(s, pat, s.len() - pat.len())
}

/// Tests whether `s` begins with `pat`.
pub fn starts_with(s: &Vec<char>, pat: &str) -> (r: bool)
    ensures
        r == has_prefix(s@, pat@),
{
    let p = chars_of(pat);
    matches_at(s, &p, 0)
}

/// Tests whether `s` ends with `pat`.
pub fn ends_with(s: &Vec<char>, pat: &str) -> (r: bool)
    ensures
        r == has_suffix(s@, pat@),
{
    let p = chars_of(pat);
    if p.len() > s.len() {
        return false;
    }
    matches_at(s, &p, s.len() - p.len())
}

/// The texts of `parts`, with `sep` between each two neighbours.
pub open spec fn join(parts: Seq<Seq<char>>, sep: Seq<char>) -> Seq<char>
    decreases parts.len(),
{
    if parts.len() == 0 {
        Seq::empty()
    } else if parts.len() == 1 {
        parts[0]
    } else {
        join(parts.drop_last(), sep) + sep + parts.last()
    }
}

/// The views of the items of a list, in order.
pub open spec fn views<T: View>(v: Seq<T>) -> Seq<T::V> {
    Seq::new(v.len(), |i: int| v[i]@)
}

/// The views of a list that grew by one item are the old views and the view
/// of that item.
pub proof fn lemma_views_push<T: View>(v: Seq<T>, x: T)
    ensures
        views(v.push(x)) == views(v).push(x@),
{
    assert(views(v.push(x)) =~= views(v).push(x@));
}

/// The views of the first `n` items are the first `n` views.
pub proof fn lemma_views_take<T: View>(v: Seq<T>, n: int)
    requires
        0 <= n <= v.len(),
    ensures
        views(v.take(n)) == views(v).take(n),
{
    assert(views(v.take(n)) =~= views(v).take(n));
}

/// The views of a list of strings.
pub open spec fn texts(v: Seq<String>) -> Seq<Seq<char>> {
    views(v)
}

/// Joins `parts` with `sep` between each two neighbours.
pub fn join_strings(parts: &Vec<String>, sep: &str) -> (s: String)
    ensures
        s@ == join(texts(parts@), sep@),
{
    let mut s = String::new();
    let mut i: usize = 0;
    while i < parts.len()
        invariant
            i <= parts.len(),
            s@ == join(texts(parts@).take(i as int), sep@),
        decreases parts.len() - i,
    {
        let ghost before = texts(parts@).take(i as int);
        let ghost after = texts(parts@).take(i as int + 1);
        assert(after.drop_last() =~= before);
        assert(after.last() == parts@[i as int]@);
        if i > 0 {
            s.append(sep);
        }
        s.append(parts[i].as_str());
        assert(s@ =~= join(after, sep@));
        i += 1;
    }
    assert(texts(parts@).take(parts.len() as int) =~= texts(parts@));
    s
}

} // verus!

verus! {

/// `cur` as a list of one piece, or no piece where it is empty.
pub open spec fn kept(cur: Seq<char>) -> Seq<Seq<char>> {
    if cur.len() == 0 {
        Seq::empty()
    } else {
        seq![cur]
    }
}

/// The non-empty pieces into which the occurrences of `pat` cut the text that
/// is `cur` followed by `s`, where the scan has already passed `cur`. The scan
/// runs from left to right and an occurrence, once found, is skipped whole.
pub open spec fn pieces(s: Seq<char>, pat: Seq<char>, cur: Seq<char>) -> Seq<Seq<char>>
    decreases s.len(),
{
    if s.len() == 0 {
        kept(cur)
    } else if pat.len() > 0 && has_prefix(s, pat) {
        kept(cur) + pieces(s.skip(pat.len() as int), pat, Seq::empty())
    } else {
        pieces(s.skip(1), pat, cur.push(s[0]))
    }
}

/// Cuts `s` at each occurrence of `pat` and leaves out the empty pieces.
pub fn split_nonempty(s: &Vec<char>, pat: &str) -> (out: Vec<String>)
    ensures
        texts(out@) == pieces(s@, pat@, Seq::empty()),
{
    let p = chars_of(pat);
    let mut out: Vec<String> = Vec::new();
    let mut start: usize = 0;
    let mut i: usize = 0;
    assert(s@.skip(0) =~= s@);
    assert(s@.subrange(0, 0) =~= Seq::<char>::empty());
    assert(texts(out@) =~= Seq::<Seq<char>>::empty());
    while i < s.len()
        invariant
            start <= i <= s.len(),
            p@ == pat@,
            pieces(s@, pat@, Seq::empty()) == texts(out@) + pieces(
                s@.skip(i as int),
                pat@,
                s@.subrange(start as int, i as int),
            ),
        decreases s.len() - i,
    {
        let ghost rest = s@.skip(i as int);
        let ghost cur = s@.subrange(start as int, i as int);
        let ghost done = texts(out@);
        if p.len() > 0 && matches_at(s, &p, i) {
            assert(rest.subrange(0, p.len() as int) =~= s@.subrange(i as int, i + p.len()));
            assert(has_prefix(rest, pat@));
            if start < i {
                let piece = string_of_range(s, start, i);
                proof {
                    lemma_views_push(out@, piece);
                }
                out.push(piece);
                assert(texts(out@) =~= done + kept(cur));
            } else {
                assert(texts(out@) =~= done + kept(cur));
            }
            i = i + p.len();
            start = i;
            assert(rest.skip(p.len() as int) =~= s@.skip(i as int));
            assert(s@.subrange(start as int, i as int) =~= Seq::<char>::empty());
            assert(done + (kept(cur) + pieces(s@.skip(i as int), pat@, Seq::empty())) =~= (done
                + kept(cur)) + pieces(s@.skip(i as int), pat@, Seq::empty()));
        } else {
            if p.len() > 0 {
                assert(!has_prefix(rest, pat@)) by {
                    if has_prefix(rest, pat@) {
                        assert(i + p.len() <= s.len());
                        assert(rest.subrange(0, p.len() as int) =~= s@.subrange(
                            i as int,
                            i + p.len(),
                        ));
                    }
                }
            }
            assert(rest.skip(1) =~= s@.skip(i as int + 1));
            assert(cur.push(rest[0]) =~= s@.subrange(start as int, i as int + 1));
            i = i + 1;
        }
    }
    let ghost cur = s@.subrange(start as int, i as int);
    let ghost done = texts(out@);
    assert(s@.skip(i as int).len() == 0);
    if start < i {
        let piece = string_of_range(s, start, i);
        proof {
            lemma_views_push(out@, piece);
        }
        out.push(piece);
        assert(texts(out@) =~= done + kept(cur));
    } else {
        assert(texts(out@) =~= done + kept(cur));
    }
    out
}

/// How many times `c` stands at the very start of `s`.
pub open spec fn leading(s: Seq<char>, c: char) -> nat
    decreases s.len(),
{
    if s.len() > 0 && s[0] == c {
        1 + leading(s.skip(1), c)
    } else {
        0
    }
}

/// Counts the copies of `c` at the very start of `s`.
pub fn count_leading(s: &Vec<char>, c: char) -> (n: usize)
    ensures
        n == leading(s@, c),
        n <= s.len(),
{
    let mut i: usize = 0;
    assert(s@.skip(0) =~= s@);
    while i < s.len() && s[i] == c
        invariant
            i <= s.len(),
            leading(s@, c) == i + leading(s@.skip(i as int), c),
        decreases s.len() - i,
    {
        assert(s@.skip(i as int).skip(1) =~= s@.skip(i as int + 1));
        i += 1;
    }
    i
}

} // verus!

verus! {

/// Appends `x` to `v`.
pub fn push_item<T: View>(v: &mut Vec<T>, x: T)
    ensures
        final(v)@ == old(v)@.push(x),
        views(final(v)@) == views(old(v)@).push(x@),
{
    proof {
        lemma_views_push(v@, x);
    }
    v.push(x);
}

} // verus!

verus! {

/// The pieces into which the occurrences of `sep` cut the text that is `cur`
/// followed by `s`, where the scan has already passed `cur`. There is one
/// piece more than there are separators, and a piece may be empty.
pub open spec fn split_at_char(s: Seq<char>, sep: char, cur: Seq<char>) -> Seq<Seq<char>>
    decreases s.len(),
{
    if s.len() == 0 {
        seq![cur]
    } else if s[0] == sep {
        seq![cur] + split_at_char(s.skip(1), sep, Seq::empty())
    } else {
        split_at_char(s.skip(1), sep, cur.push(s[0]))
    }
}

/// The pieces of `s[lo..hi]` between the occurrences of `sep`.
pub fn split_char(s: &Vec<char>, lo: usize, hi: usize, sep: char) -> (out: Vec<Vec<char>>)
    requires
        lo <= hi <= s.len(),
    ensures
        views(out@) == split_at_char(s@.subrange(lo as int, hi as int), sep, Seq::empty()),
{
    let ghost text = s@.subrange(lo as int, hi as int);
    let mut out: Vec<Vec<char>> = Vec::new();
    let mut cur: Vec<char> = Vec::new();
    let mut i: usize = lo;
    assert(text.skip(0) =~= text);
    assert(views(out@) =~= Seq::<Seq<char>>::empty());
    while i < hi
        invariant
            lo <= i <= hi <= s.len(),
            text == s@.subrange(lo as int, hi as int),
            split_at_char(text, sep, Seq::empty()) == views(out@) + split_at_char(
                text.skip(i - lo),
                sep,
                cur@,
            ),
        decreases hi - i,
    {
        let ghost rest = text.skip(i - lo);
        let ghost done = views(out@);
        assert(rest.skip(1) =~= text.skip(i - lo + 1));
        assert(rest[0] == s@[i as int]);
        if s[i] == sep {
            let ghost piece = cur@;
            push_item(&mut out, cur);
            cur = Vec::new();
            assert(views(out@) + split_at_char(rest.skip(1), sep, cur@) =~= done + (seq![piece]
                + split_at_char(rest.skip(1), sep, Seq::empty())));
        } else {
            cur.push(s[i]);
        }
        i += 1;
    }
    let ghost done = views(out@);
    push_item(&mut out, cur);
    assert(views(out@) =~= done + seq![cur@]);
    out
}

} // verus!

verus! {

/// A copy of the characters `s[lo..hi]`.
pub fn copy_range(s: &Vec<char>, lo: usize, hi: usize) -> (out: Vec<char>)
    requires
        lo <= hi <= s.len(),
    ensures
        out@ == s@.subrange(lo as int, hi as int),
{
    let mut out: Vec<char> = Vec::new();
    let mut i: usize = lo;
    while i < hi
        invariant
            lo <= i <= hi <= s.len(),
            out@ == s@.subrange(lo as int, i as int),
        decreases hi - i,
    {
        out.push(s[i]);
        assert(out@ =~= s@.subrange(lo as int, i as int + 1));
        i += 1;
    }
    out
}

/// `s` without the white space at its start.
pub open spec fn trim_start(s: Seq<char>) -> Seq<char>
    decreases s.len(),
{
    if s.len() > 0 && is_space(s[0]) {
        trim_start(s.skip(1))
    } else {
        s
    }
}

/// `s` without the white space at its end.
pub open spec fn trim_end(s: Seq<char>) -> Seq<char>
    decreases s.len(),
{
    if s.len() > 0 && is_space(s.last()) {
        trim_end(s.drop_last())
    } else {
        s
    }
}

/// `s` without the white space at its start and at its end.
pub open spec fn trim(s: Seq<char>) -> Seq<char> {
    trim_end(trim_start(s))
}

/// The bounds of `s[lo..hi]` without the white space at its end.
pub fn trim_end_bound(s: &Vec<char>, lo: usize, hi: usize) -> (end: usize)
    requires
        lo <= hi <= s.len(),
    ensures
        lo <= end <= hi,
        s@.subrange(lo as int, end as int) == trim_end(s@.subrange(lo as int, hi as int)),
{
    let mut end: usize = hi;
    while end > lo && char_is_space(s[end - 1])
        invariant
            lo <= end <= hi <= s.len(),
            trim_end(s@.subrange(lo as int, end as int)) == trim_end(
                s@.subrange(lo as int, hi as int),
            ),
        decreases end - lo,
    {
        assert(s@.subrange(lo as int, end as int).drop_last() =~= s@.subrange(
            lo as int,
            end as int - 1,
        ));
        end -= 1;
    }
    end
}

/// The bounds of `s[lo..hi]` without the white space at its start.
pub fn trim_start_bound(s: &Vec<char>, lo: usize, hi: usize) -> (start: usize)
    requires
        lo <= hi <= s.len(),
    ensures
        lo <= start <= hi,
        s@.subrange(start as int, hi as int) == trim_start(s@.subrange(lo as int, hi as int)),
{
    let mut start: usize = lo;
    while start < hi && char_is_space(s[start])
        invariant
            lo <= start <= hi <= s.len(),
            trim_start(s@.subrange(start as int, hi as int)) == trim_start(
                s@.subrange(lo as int, hi as int),
            ),
        decreases hi - start,
    {
        assert(s@.subrange(start as int, hi as int).skip(1) =~= s@.subrange(
            start as int + 1,
            hi as int,
        ));
        start += 1;
    }
    start
}

/// A copy of `s` without the white space at its start and at its end.
pub fn trimmed(s: &Vec<char>) -> (out: Vec<char>)
    ensures
        out@ == trim(s@),
{
    assert(s@.subrange(0, s.len() as int) =~= s@);
    let start = trim_start_bound(s, 0, s.len());
    let end = trim_end_bound(s, start, s.len());
    copy_range(s, start, end)
}

/// How often `c` occurs in `s`.
pub open spec fn count_char(s: Seq<char>, c: char) -> nat
    decreases s.len(),
{
    if s.len() == 0 {
        0
    } else {
        count_char(s.drop_last(), c) + if s.last() == c {
            1nat
        } else {
            0nat
        }
    }
}

/// Counts the occurrences of `c` in `s`.
pub fn count_in(s: &Vec<char>, c: char) -> (n: usize)
    ensures
        n == count_char(s@, c),
{
    let mut n: usize = 0;
    let mut i: usize = 0;
    assert(s@.take(0) =~= Seq::<char>::empty());
    while i < s.len()
        invariant
            i <= s.len(),
            n <= i,
            n == count_char(s@.take(i as int), c),
        decreases s.len() - i,
    {
        assert(s@.take(i as int + 1).drop_last() =~= s@.take(i as int));
        if s[i] == c {
            n += 1;
        }
        i += 1;
    }
    assert(s@.take(s.len() as int) =~= s@);
    n
}

/// By how much the opening square brackets of `s` outnumber the closing ones.
pub open spec fn bracket_net(s: Seq<char>) -> int {
    count_char(s, '[') - count_char(s, ']')
}

/// Where the group of parts that starts at `j` with `depth` brackets open
/// ends: just behind the first part after which no bracket is open, or -1
/// where the brackets never close.
pub open spec fn closing(parts: Seq<Seq<char>>, j: int, depth: int) -> int
    decreases parts.len() - j,
{
    if j < 0 || j >= parts.len() {
        -1
    } else {
        let d = depth + bracket_net(parts[j]);
        if d == 0 {
            j + 1
        } else {
            closing(parts, j + 1, d)
        }
    }
}

/// Where the group of parts that starts at `i` ends. A part whose brackets
/// never close stands alone.
pub open spec fn group_end(parts: Seq<Seq<char>>, i: int) -> int {
    let c = closing(parts, i, 0);
    if i < c <= parts.len() {
        c
    } else {
        i + 1
    }
}

/// The parts from position `i` on, where neighbours are joined again by `sep`
/// as long as a square bracket is open between them.
pub open spec fn regrouped(parts: Seq<Seq<char>>, sep: char, i: int) -> Seq<Seq<char>>
    decreases parts.len() - i,
{
    if i < 0 || i >= parts.len() {
        Seq::empty()
    } else {
        let e = group_end(parts, i);
        seq![join(parts.subrange(i, e), seq![sep])] + regrouped(parts, sep, e)
    }
}

/// `closing` never points behind the list, nor at or before its start.
pub proof fn lemma_closing_bounds(parts: Seq<Seq<char>>, j: int, depth: int)
    requires
        0 <= j,
    ensures
        closing(parts, j, depth) == -1 || j < closing(parts, j, depth) <= parts.len(),
    decreases parts.len() - j,
{
    if j < parts.len() {
        let d = depth + bracket_net(parts[j]);
        if d != 0 {
            lemma_closing_bounds(parts, j + 1, d);
        }
    }
}

/// Finds where the group of parts that starts at `i` ends.
pub fn find_group_end(parts: &Vec<Vec<char>>, i: usize) -> (e: usize)
    requires
        i < parts.len(),
    ensures
        e == group_end(views(parts@), i as int),
        i < e <= parts.len(),
{
    let ghost p = views(parts@);
    let mut opens: u128 = 0;
    let mut closes: u128 = 0;
    let mut j: usize = i;
    proof {
        lemma_closing_bounds(p, i as int, 0);
    }
    while j < parts.len()
        invariant
            i <= j <= parts.len(),
            p == views(parts@),
            opens <= (j - i) * usize::MAX,
            closes <= (j - i) * usize::MAX,
            closing(p, i as int, 0) == closing(p, j as int, opens - closes),
        decreases parts.len() - j,
    {
        let o = count_in(&parts[j], '[');
        let c = count_in(&parts[j], ']');
        assert((j - i + 1) * usize::MAX == (j - i) * usize::MAX + usize::MAX) by (nonlinear_arith);
        assert((j - i + 1) * usize::MAX <= usize::MAX * usize::MAX) by (nonlinear_arith)
            requires
                j - i + 1 <= usize::MAX,
                0 <= j - i,
        ;
        assert(usize::MAX * usize::MAX < u128::MAX) by (nonlinear_arith)
            requires
                usize::MAX <= 0xFFFF_FFFF_FFFF_FFFF,
        ;
        opens = opens + o as u128;
        closes = closes + c as u128;
        assert(p[j as int] == parts@[j as int]@);
        if opens == closes {
            return j + 1;
        }
        j += 1;
    }
    i + 1
}

/// The parts `parts[lo..hi]` with `sep` between each two neighbours.
pub fn join_chars(parts: &Vec<Vec<char>>, lo: usize, hi: usize, sep: char) -> (out: Vec<char>)
    requires
        lo <= hi <= parts.len(),
    ensures
        out@ == join(views(parts@).subrange(lo as int, hi as int), seq![sep]),
{
    let ghost p = views(parts@);
    let mut out: Vec<char> = Vec::new();
    let mut i: usize = lo;
    assert(p.subrange(lo as int, lo as int) =~= Seq::<Seq<char>>::empty());
    while i < hi
        invariant
            lo <= i <= hi <= parts.len(),
            p == views(parts@),
            out@ == join(p.subrange(lo as int, i as int), seq![sep]),
        decreases hi - i,
    {
        let ghost before = p.subrange(lo as int, i as int);
        let ghost after = p.subrange(lo as int, i as int + 1);
        let ghost old_out = out@;
        assert(after.drop_last() =~= before);
        assert(after.last() == parts@[i as int]@);
        if i > lo {
            out.push(sep);
        }
        let part = &parts[i];
        let mut k: usize = 0;
        let ghost base = out@;
        while k < part.len()
            invariant
                k <= part.len(),
                out@ == base + part@.take(k as int),
            decreases part.len() - k,
        {
            out.push(part[k]);
            assert(out@ =~= base + part@.take(k as int + 1));
            k += 1;
        }
        assert(part@.take(part.len() as int) =~= part@);
        assert(out@ =~= join(after, seq![sep])) by {
            if i > lo {
                assert(base =~= old_out + seq![sep]);
            } else {
                assert(base =~= old_out);
                assert(before.len() == 0);
                assert(old_out =~= Seq::<char>::empty());
            }
        }
        i += 1;
    }
    out
}

/// Joins neighbouring parts again, by `sep`, as long as a square bracket is
/// open between them.
pub fn regroup(parts: &Vec<Vec<char>>, sep: char) -> (out: Vec<Vec<char>>)
    ensures
        views(out@) == regrouped(views(parts@), sep, 0),
{
    let ghost p = views(parts@);
    let mut out: Vec<Vec<char>> = Vec::new();
    let mut i: usize = 0;
    assert(views(out@) =~= Seq::<Seq<char>>::empty());
    while i < parts.len()
        invariant
            i <= parts.len(),
            p == views(parts@),
            regrouped(p, sep, 0) == views(out@) + regrouped(p, sep, i as int),
        decreases parts.len() - i,
    {
        let ghost done = views(out@);
        let e = find_group_end(parts, i);
        let merged = join_chars(parts, i, e, sep);
        push_item(&mut out, merged);
        assert(views(out@) + regrouped(p, sep, e as int) =~= done + (seq![merged@] + regrouped(
            p,
            sep,
            e as int,
        )));
        i = e;
    }
    out
}

} // verus!

verus! {

/// Whether `pat` occurs somewhere in `s`.
pub open spec fn contains_text(s: Seq<char>, pat: Seq<char>) -> bool {
    exists|i: int| occurs_at(s, pat, i)
}

/// Tests whether `pat` occurs somewhere in `s`.
pub fn has_text(s: &str, pat: &str) -> (r: bool)
    ensures
        r == contains_text(s@, pat@),
{
    let cs = chars_of(s);
    let p = chars_of(pat);
    let mut i: usize = 0;
    while i < cs.len()
        invariant
            i <= cs.len(),
            cs@ == s@,
            p@ == pat@,
            forall|j: int| 0 <= j < i ==> !occurs_at(s@, pat@, j),
        decreases cs.len() - i,
    {
        if matches_at(&cs, &p, i) {
            return true;
        }
        i += 1;
    }
    if matches_at(&cs, &p, i) {
        return true;
    }
    false
}

} // verus!

verus! {

/// How the text `a` compares with the text `b` in the order of the
/// dictionary, character by character: -1 where it comes first, 1 where it
/// comes last, 0 where the two are the same.
pub open spec fn text_order(a: Seq<char>, b: Seq<char>) -> int
    decreases a.len(),
{
    if a.len() == 0 {
        if b.len() == 0 {
            0
        } else {
            -1
        }
    } else if b.len() == 0 {
        1
    } else if (a[0] as u32) < (b[0] as u32) {
        -1
    } else if (a[0] as u32) > (b[0] as u32) {
        1
    } else {
        text_order(a.skip(1), b.skip(1))
    }
}

/// Compares two texts in the order of the dictionary.
pub fn compare_texts(a: &str, b: &str) -> (r: i8)
    ensures
        r == text_order(a@, b@),
{
    let x = chars_of(a);
    let y = chars_of(b);
    let mut i: usize = 0;
    assert(x@.skip(0) =~= x@);
    assert(y@.skip(0) =~= y@);
    while i < x.len() && i < y.len()
        invariant
            i <= x.len(),
            i <= y.len(),
            x@ == a@,
            y@ == b@,
            text_order(x@, y@) == text_order(x@.skip(i as int), y@.skip(i as int)),
        decreases x.len() - i,
    {
        let left: char = x[i];
        let right: char = y[i];
        let c: u32 = left as u32;
        let d: u32 = right as u32;
        assert(x@.skip(i as int)[0] == left);
        assert(y@.skip(i as int)[0] == right);
        if c < d {
            return -1;
        }
        if c > d {
            return 1;
        }
        assert(x@.skip(i as int).skip(1) =~= x@.skip(i as int + 1));
        assert(y@.skip(i as int).skip(1) =~= y@.skip(i as int + 1));
        i += 1;
    }
    if i < y.len() {
        -1
    } else if i < x.len() {
        1
    } else {
        0
    }
}

} // verus!

verus! {

/// The number of characters in all of `parts`.
pub open spec fn total_len(parts: Seq<Seq<char>>) -> nat
    decreases parts.len(),
{
    if parts.len() == 0 {
        0
    } else {
        total_len(parts.drop_last()) + parts.last().len()
    }
}

/// A single part holds its own characters.
pub proof fn lemma_total_len_one(part: Seq<char>)
    ensures
        total_len(seq![part]) == part.len(),
{
    assert(seq![part].drop_last() =~= Seq::<Seq<char>>::empty());
    assert(total_len(Seq::<Seq<char>>::empty()) == 0);
}

/// Two lists together hold the characters of both.
pub proof fn lemma_total_len_add(a: Seq<Seq<char>>, b: Seq<Seq<char>>)
    ensures
        total_len(a + b) == total_len(a) + total_len(b),
    decreases b.len(),
{
    if b.len() == 0 {
        assert(a + b =~= a);
    } else {
        assert((a + b).drop_last() =~= a + b.drop_last());
        lemma_total_len_add(a, b.drop_last());
    }
}

/// No part is longer than all parts together.
pub proof fn lemma_part_within_total(parts: Seq<Seq<char>>, i: int)
    requires
        0 <= i < parts.len(),
    ensures
        parts[i].len() <= total_len(parts),
    decreases parts.len(),
{
    if i < parts.len() - 1 {
        lemma_part_within_total(parts.drop_last(), i);
    }
}

/// The pieces of a text hold its characters but for the separators, of
/// which there is one fewer than there are pieces.
pub proof fn lemma_split_total(s: Seq<char>, sep: char, cur: Seq<char>)
    ensures
        split_at_char(s, sep, cur).len() >= 1,
        total_len(split_at_char(s, sep, cur)) + split_at_char(s, sep, cur).len() == cur.len()
            + s.len() + 1,
    decreases s.len(),
{
    lemma_total_len_one(cur);
    if s.len() == 0 {
    } else if s[0] == sep {
        lemma_split_total(s.skip(1), sep, Seq::empty());
        lemma_total_len_add(seq![cur], split_at_char(s.skip(1), sep, Seq::empty()));
    } else {
        lemma_split_total(s.skip(1), sep, cur.push(s[0]));
    }
}

/// A text without the white space at its ends is no longer than the text.
pub proof fn lemma_trim_len(s: Seq<char>)
    ensures
        trim_start(s).len() <= s.len(),
        trim_end(s).len() <= s.len(),
        trim(s).len() <= s.len(),
    decreases s.len(),
{
    if s.len() > 0 {
        lemma_trim_len(s.skip(1));
        lemma_trim_len(s.drop_last());
    }
    lemma_trim_end_len(trim_start(s));
}

/// A text without the white space at its end is no longer than the text.
pub proof fn lemma_trim_end_len(s: Seq<char>)
    ensures
        trim_end(s).len() <= s.len(),
    decreases s.len(),
{
    if s.len() > 0 {
        lemma_trim_end_len(s.drop_last());
    }
}

/// Parts without the white space at their ends hold no more characters than
/// the parts.
pub proof fn lemma_trimmed_total(parts: Seq<Seq<char>>)
    ensures
        total_len(parts.map_values(|p: Seq<char>| trim(p))) <= total_len(parts),
    decreases parts.len(),
{
    let cut = parts.map_values(|p: Seq<char>| trim(p));
    if parts.len() > 0 {
        assert(cut.drop_last() =~= parts.drop_last().map_values(|p: Seq<char>| trim(p)));
        lemma_trimmed_total(parts.drop_last());
        lemma_trim_len(parts.last());
    }
}

/// Parts that are joined hold their characters and one separator fewer than
/// there are parts.
pub proof fn lemma_join_len(parts: Seq<Seq<char>>, sep: Seq<char>)
    requires
        parts.len() > 0,
    ensures
        join(parts, sep).len() == total_len(parts) + (parts.len() - 1) * sep.len(),
    decreases parts.len(),
{
    if parts.len() == 1 {
        assert(parts.drop_last() =~= Seq::<Seq<char>>::empty());
        assert(total_len(parts.drop_last()) == 0);
    } else {
        lemma_join_len(parts.drop_last(), sep);
        assert((parts.len() - 1) * sep.len() == (parts.len() - 2) * sep.len() + sep.len())
            by (nonlinear_arith);
    }
}

/// Parts that are joined again, as far as brackets ask for it, hold as many
/// characters and separators as before.
pub proof fn lemma_regrouped_total(parts: Seq<Seq<char>>, sep: char, i: int)
    requires
        0 <= i <= parts.len(),
    ensures
        regrouped(parts, sep, i).len() <= parts.len() - i,
        i < parts.len() ==> regrouped(parts, sep, i).len() >= 1,
        total_len(regrouped(parts, sep, i)) + regrouped(parts, sep, i).len() == total_len(
            parts.skip(i),
        ) + (parts.len() - i),
    decreases parts.len() - i,
{
    if i >= parts.len() {
        assert(parts.skip(i) =~= Seq::<Seq<char>>::empty());
    } else {
        let e = group_end(parts, i);
        let group = parts.subrange(i, e);
        let head = seq![join(group, seq![sep])];
        lemma_regrouped_total(parts, sep, e);
        lemma_join_len(group, seq![sep]);
        lemma_total_len_add(head, regrouped(parts, sep, e));
        lemma_total_len_one(join(group, seq![sep]));
        assert(parts.skip(i) =~= group + parts.skip(e));
        lemma_total_len_add(group, parts.skip(e));
        assert((group.len() - 1) * 1 == group.len() - 1);
    }
}

} // verus!
