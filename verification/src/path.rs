//! Dotted namespace paths and the references between them.

use crate::error::{parser_error, PyBindgenError};
use crate::ident::{py_form, rs_form, same_ident, Ident, PARSE_LIMIT};
use crate::text::{
    chars_of, count_leading, has_prefix, join, join_strings, leading, pieces, push_item,
    split_nonempty, starts_with, texts, views,
};
use core::cmp::Ordering;
use vstd::prelude::*;

verus! {

/// Whether `syn` reads `text` as one Rust path. The answer is a function of
/// the text alone.
pub uninterp spec fn rust_path_accepted(text: Seq<char>) -> bool;

/// Whether `text` can stand as a path in generated code: it is short enough
/// to be handed to the parser, and the parser reads it as one Rust path.
pub open spec fn path_accepted(text: Seq<char>) -> bool {
    text.len() <= PARSE_LIMIT && rust_path_accepted(text)
}

/// Calls `syn::parse_str::<syn::Path>` on `value` and keeps the error where
/// there is one. Nothing more is claimed than that success depends on the
/// text alone. Texts beyond the limit are not handed over.
#[verifier::external_body]
pub(crate) fn parse_path(value: &str) -> (r: Result<(), syn::Error>)
    requires
        value@.len() <= PARSE_LIMIT,
    ensures
        r is Ok == rust_path_accepted(value@),
{
    match syn::parse_str::<syn::Path>(value) {
        Ok(_) => Ok(()),
        Err(e) => Err(e),
    }
}

/// What a path is: whether it is rooted, and the Rust spellings of its
/// segments from the outermost to the innermost.
pub struct PathView {
    pub leading_colon: bool,
    pub segments: Seq<Seq<char>>,
}

/// An ordered sequence of identifiers, optionally rooted.
#[derive(Debug)]
pub struct Path {
    pub leading_colon: bool,
    pub segments: Vec<Ident>,
}

/// The Rust spellings of a list of identifiers.
pub open spec fn ident_texts(v: Seq<Ident>) -> Seq<Seq<char>> {
    views(v)
}

/// `n` segments that each step up to the enclosing scope.
pub open spec fn supers(n: nat) -> Seq<Seq<char>> {
    Seq::new(n, |i: int| "super"@)
}

/// The path that Rust source text `value` spells.
pub open spec fn path_from_rs(value: Seq<char>) -> PathView {
    PathView {
        leading_colon: has_prefix(value, "::"@),
        segments: pieces(value, "::"@, Seq::empty()),
    }
}

/// The path that Python source text `value` spells. Each leading dot steps up
/// one scope.
pub open spec fn path_from_py(value: Seq<char>) -> PathView {
    PathView {
        leading_colon: false,
        segments: supers(leading(value, '.')) + pieces(value, "."@, Seq::empty()).map_values(
            |p: Seq<char>| rs_form(p),
        ),
    }
}

/// The Rust source text of a path.
pub open spec fn path_to_rs(p: PathView) -> Seq<char> {
    if p.leading_colon {
        join(seq![Seq::<char>::empty()] + p.segments, "::"@)
    } else {
        join(p.segments, "::"@)
    }
}

/// What one segment contributes to the Python source text of a path: its
/// Python spelling, or nothing where it steps up.
pub open spec fn py_segment(rs: Seq<char>) -> Seq<char> {
    if py_form(rs) == "super"@ {
        Seq::empty()
    } else {
        py_form(rs)
    }
}

/// The Python source text of a path.
pub open spec fn path_to_py(p: PathView) -> Seq<char> {
    join(p.segments.map_values(|s: Seq<char>| py_segment(s)), "."@)
}

/// Whether two paths are rooted alike and agree segment by segment on the
/// Python attribute that each segment names.
pub open spec fn same_path(a: PathView, b: PathView) -> bool {
    &&& a.leading_colon == b.leading_colon
    &&& same_segments(a.segments, b.segments)
}

/// Whether two segment lists have one length and agree position by position.
pub open spec fn same_segments(a: Seq<Seq<char>>, b: Seq<Seq<char>>) -> bool {
    &&& a.len() == b.len()
    &&& forall|i: int| 0 <= i < a.len() ==> same_ident(#[trigger] a[i], b[i])
}

/// Whether the segments `a` begin with the segments `b`.
pub open spec fn segments_start_with(a: Seq<Seq<char>>, b: Seq<Seq<char>>) -> bool {
    &&& b.len() <= a.len()
    &&& forall|i: int| 0 <= i < b.len() ==> same_ident(#[trigger] a[i], b[i])
}

/// The number of leading segments on which `a` and `b` agree.
pub open spec fn common_prefix_len(a: Seq<Seq<char>>, b: Seq<Seq<char>>) -> nat
    decreases a.len(),
{
    if a.len() > 0 && b.len() > 0 && same_ident(a[0], b[0]) {
        1 + common_prefix_len(a.skip(1), b.skip(1))
    } else {
        0
    }
}

/// The segments that lead from the scope `from` to the item `to`.
///
/// From a path to itself the result is `self`, or `super` and the path's own
/// name where `full` asks for a reference that no local name can shadow.
/// Otherwise it steps up once for each segment of `from` behind the common
/// prefix and then goes down the rest of `to`. Where nothing is stepped up
/// and `full` is set, `self` stands in front. A `full` reference that would
/// end in `super` is completed by one more `super` and the name of `to`.
pub open spec fn relative_segments(from: PathView, to: PathView, full: bool) -> Seq<Seq<char>> {
    if same_path(from, to) {
        if full {
            seq!["super"@, to.segments.last()]
        } else {
            seq!["self"@]
        }
    } else {
        let k = common_prefix_len(from.segments, to.segments);
        let rest = to.segments.skip(k as int);
        let base = if k < from.segments.len() {
            supers((from.segments.len() - k) as nat) + rest
        } else if full {
            seq!["self"@] + rest
        } else {
            rest
        };
        if full && base.len() > 0 && base.last() == "super"@ {
            base + seq!["super"@, to.segments.last()]
        } else {
            base
        }
    }
}

impl View for Path {
    type V = PathView;

    open spec fn view(&self) -> PathView {
        PathView { leading_colon: self.leading_colon, segments: ident_texts(self.segments@) }
    }
}

impl Path {
    /// The number of segments.
    pub fn len(&self) -> (n: usize)
        ensures
            n == self@.segments.len(),
    {
        self.segments.len()
    }

    /// Whether the path has no segment.
    pub fn is_empty(&self) -> (b: bool)
        ensures
            b == (self@.segments.len() == 0),
    {
        self.segments.len() == 0
    }

    /// The segment at position `i`.
    pub fn segment(&self, i: usize) -> (id: &Ident)
        requires
            i < self@.segments.len(),
        ensures
            id@ == self@.segments[i as int],
    {
        &self.segments[i]
    }

    /// The path made of the given segments, not rooted.
    pub fn from_segments(segments: Vec<Ident>) -> (p: Path)
        ensures
            p@ == (PathView { leading_colon: false, segments: ident_texts(segments@) }),
    {
        Path { leading_colon: false, segments }
    }

    /// The path of one segment, not rooted.
    pub fn from_ident(ident: Ident) -> (p: Path)
        ensures
            p@ == (PathView { leading_colon: false, segments: seq![ident@] }),
    {
        let mut segments: Vec<Ident> = Vec::new();
        push_item(&mut segments, ident);
        assert(ident_texts(segments@) =~= seq![ident@]);
        Path { leading_colon: false, segments }
    }

    /// The first `n` segments as a path of their own, not rooted.
    pub fn prefix(&self, n: usize) -> (p: Path)
        requires
            n <= self@.segments.len(),
        ensures
            p@ == (PathView { leading_colon: false, segments: self@.segments.take(n as int) }),
    {
        let mut segments: Vec<Ident> = Vec::new();
        let mut i: usize = 0;
        while i < n
            invariant
                i <= n <= self.segments.len(),
                ident_texts(segments@) == ident_texts(self.segments@).take(i as int),
            decreases n - i,
        {
            push_item(&mut segments, self.segments[i].clone());
            assert(ident_texts(segments@) =~= ident_texts(self.segments@).take(i as int + 1));
            i += 1;
        }
        Path { leading_colon: false, segments }
    }

    /// Reads a path from Rust source text, `::` between the segments.
    pub fn from_rs(value: &str) -> (p: Path)
        ensures
            p@ == path_from_rs(value@),
    {
        let cs = chars_of(value);
        let parts = split_nonempty(&cs, "::");
        let mut segments: Vec<Ident> = Vec::new();
        let mut i: usize = 0;
        while i < parts.len()
            invariant
                i <= parts.len(),
                ident_texts(segments@) == texts(parts@).take(i as int),
            decreases parts.len() - i,
        {
            push_item(&mut segments, Ident::from_rs(parts[i].as_str()));
            assert(ident_texts(segments@) =~= texts(parts@).take(i as int + 1));
            i += 1;
        }
        assert(texts(parts@).take(parts.len() as int) =~= texts(parts@));
        Path { leading_colon: starts_with(&cs, "::"), segments }
    }

    /// Reads a path from Python source text, `.` between the segments.
    pub fn from_py(value: &str) -> (p: Path)
        ensures
            p@ == path_from_py(value@),
    {
        let cs = chars_of(value);
        let ups = count_leading(&cs, '.');
        let parts = split_nonempty(&cs, ".");
        let mut segments: Vec<Ident> = Vec::new();
        let mut i: usize = 0;
        while i < ups
            invariant
                i <= ups,
                ident_texts(segments@) == supers(i as nat),
            decreases ups - i,
        {
            push_item(&mut segments, Ident::from_rs("super"));
            assert(ident_texts(segments@) =~= supers((i + 1) as nat));
            i += 1;
        }
        let ghost named = texts(parts@).map_values(|p: Seq<char>| rs_form(p));
        let mut j: usize = 0;
        while j < parts.len()
            invariant
                j <= parts.len(),
                named == texts(parts@).map_values(|p: Seq<char>| rs_form(p)),
                ident_texts(segments@) == supers(ups as nat) + named.take(j as int),
            decreases parts.len() - j,
        {
            push_item(&mut segments, Ident::from_py(parts[j].as_str()));
            assert(ident_texts(segments@) =~= supers(ups as nat) + named.take(j as int + 1));
            j += 1;
        }
        assert(named.take(parts.len() as int) =~= named);
        Path { leading_colon: false, segments }
    }

    /// The Rust spellings of the segments, behind one empty text where the
    /// path is rooted.
    fn rs_parts(&self) -> (parts: Vec<String>)
        ensures
            texts(parts@) == if self.leading_colon {
                seq![Seq::<char>::empty()] + self@.segments
            } else {
                self@.segments
            },
    {
        let mut parts: Vec<String> = Vec::new();
        if self.leading_colon {
            push_item(&mut parts, String::new());
        }
        let ghost head = texts(parts@);
        assert(head =~= if self.leading_colon {
            seq![Seq::<char>::empty()]
        } else {
            Seq::empty()
        });
        let mut i: usize = 0;
        while i < self.segments.len()
            invariant
                i <= self.segments.len(),
                texts(parts@) == head + ident_texts(self.segments@).take(i as int),
            decreases self.segments.len() - i,
        {
            push_item(&mut parts, self.segments[i].as_rs().to_owned());
            assert(texts(parts@) =~= head + ident_texts(self.segments@).take(i as int + 1));
            i += 1;
        }
        assert(ident_texts(self.segments@).take(self.segments.len() as int) =~= ident_texts(
            self.segments@,
        ));
        assert(Seq::<Seq<char>>::empty() + self@.segments =~= self@.segments);
        parts
    }

    /// Gives up the path for its Rust source text.
    pub fn into_rs(self) -> (s: String)
        ensures
            s@ == path_to_rs(self@),
    {
        self.to_rs()
    }

    /// The Rust source text of the path.
    pub fn to_rs(&self) -> (s: String)
        ensures
            s@ == path_to_rs(self@),
    {
        let parts = self.rs_parts();
        join_strings(&parts, "::")
    }

    /// The Python source text of the path.
    pub fn to_py(&self) -> (s: String)
        ensures
            s@ == path_to_py(self@),
    {
        let ghost goal = self@.segments.map_values(|s: Seq<char>| py_segment(s));
        let mut parts: Vec<String> = Vec::new();
        let mut i: usize = 0;
        while i < self.segments.len()
            invariant
                i <= self.segments.len(),
                goal == self@.segments.map_values(|s: Seq<char>| py_segment(s)),
                texts(parts@) == goal.take(i as int),
            decreases self.segments.len() - i,
        {
            let seg = &self.segments[i];
            if seg.is_py("super") {
                push_item(&mut parts, String::new());
            } else {
                push_item(&mut parts, seg.as_py().to_owned());
            }
            assert(texts(parts@) =~= goal.take(i as int + 1));
            i += 1;
        }
        assert(goal.take(self.segments.len() as int) =~= goal);
        join_strings(&parts, ".")
    }

    /// The Rust source text of the path as it can stand in generated code,
    /// or the error of the parser where that text is no Rust path.
    pub fn to_token(&self) -> (r: Result<String, PyBindgenError>)
        ensures
            r is Ok == path_accepted(path_to_rs(self@)),
            r matches Ok(s) ==> s@ == path_to_rs(self@),
            r matches Err(e) ==> e is SynError,
    {
        let text = self.to_rs();
        if text.as_str().unicode_len() > PARSE_LIMIT {
            return Err(PyBindgenError::SynError(parser_error("the path is too long")));
        }
        match parse_path(text.as_str()) {
            Ok(_) => Ok(text),
            Err(e) => Err(PyBindgenError::SynError(e)),
        }
    }

    /// The path that goes on from `self` by the segments of `other`.
    pub fn join(&self, other: &Path) -> (p: Path)
        requires
            !other.leading_colon,
        ensures
            p@ == (PathView {
                leading_colon: self.leading_colon,
                segments: self@.segments + other@.segments,
            }),
    {
        self.concat(other)
    }

    /// The path that goes on from `self` by the segments of `other`.
    pub fn concat(&self, other: &Path) -> (p: Path)
        requires
            !other.leading_colon,
        ensures
            p@ == (PathView {
                leading_colon: self.leading_colon,
                segments: self@.segments + other@.segments,
            }),
    {
        let mut segments: Vec<Ident> = Vec::new();
        let mut i: usize = 0;
        while i < self.segments.len()
            invariant
                i <= self.segments.len(),
                ident_texts(segments@) == self@.segments.take(i as int),
            decreases self.segments.len() - i,
        {
            push_item(&mut segments, self.segments[i].clone());
            assert(ident_texts(segments@) =~= self@.segments.take(i as int + 1));
            i += 1;
        }
        assert(self@.segments.take(self.segments.len() as int) =~= self@.segments);
        let mut j: usize = 0;
        while j < other.segments.len()
            invariant
                j <= other.segments.len(),
                ident_texts(segments@) == self@.segments + other@.segments.take(j as int),
            decreases other.segments.len() - j,
        {
            push_item(&mut segments, other.segments[j].clone());
            assert(ident_texts(segments@) =~= self@.segments + other@.segments.take(j as int + 1));
            j += 1;
        }
        assert(other@.segments.take(other.segments.len() as int) =~= other@.segments);
        Path { leading_colon: self.leading_colon, segments }
    }

    /// The path that goes on from `self` by one segment.
    pub fn child(&self, name: &Ident) -> (p: Path)
        ensures
            p@ == (PathView {
                leading_colon: self.leading_colon,
                segments: self@.segments.push(name@),
            }),
    {
        let mut p = self.clone();
        push_item(&mut p.segments, name.clone());
        p
    }

    /// The innermost segment.
    pub fn name(&self) -> (id: &Ident)
        requires
            self@.segments.len() > 0,
        ensures
            id@ == self@.segments.last(),
    {
        &self.segments[self.segments.len() - 1]
    }

    /// The outermost segment as a path of its own, if there is one.
    pub fn root(&self) -> (r: Option<Path>)
        ensures
            r is Some == (self@.segments.len() > 0),
            r matches Some(p) ==> p@ == (PathView {
                leading_colon: self.leading_colon,
                segments: seq![self@.segments[0]],
            }),
    {
        if self.segments.len() == 0 {
            None
        } else {
            let mut segments: Vec<Ident> = Vec::new();
            push_item(&mut segments, self.segments[0].clone());
            assert(ident_texts(segments@) =~= seq![self@.segments[0]]);
            Some(Path { leading_colon: self.leading_colon, segments })
        }
    }

    /// The path without its innermost segment, if more than one is there.
    pub fn parent(&self) -> (r: Option<Path>)
        ensures
            r is Some == (self@.segments.len() > 1),
            r matches Some(p) ==> p@ == (PathView {
                leading_colon: self.leading_colon,
                segments: self@.segments.drop_last(),
            }),
    {
        if self.segments.len() > 1 {
            let mut p = self.prefix(self.segments.len() - 1);
            p.leading_colon = self.leading_colon;
            assert(self@.segments.take(self.segments.len() - 1) =~= self@.segments.drop_last());
            Some(p)
        } else {
            None
        }
    }

    /// Whether `self` and `other` are the same path.
    pub fn same(&self, other: &Path) -> (r: bool)
        ensures
            r == same_path(self@, other@),
    {
        if self.leading_colon != other.leading_colon || self.segments.len()
            != other.segments.len() {
            return false;
        }
        let mut i: usize = 0;
        while i < self.segments.len()
            invariant
                i <= self.segments.len(),
                self.segments.len() == other.segments.len(),
                forall|j: int|
                    0 <= j < i ==> same_ident(#[trigger] self@.segments[j], other@.segments[j]),
            decreases self.segments.len() - i,
        {
            if !self.segments[i].same(&other.segments[i]) {
                assert(self@.segments[i as int] == self.segments[i as int]@);
                assert(other@.segments[i as int] == other.segments[i as int]@);
                return false;
            }
            i += 1;
        }
        true
    }

    /// Whether the segments of `self` begin with the segments of `other`.
    pub fn starts_with(&self, other: &Path) -> (r: bool)
        ensures
            r == segments_start_with(self@.segments, other@.segments),
    {
        if other.segments.len() > self.segments.len() {
            return false;
        }
        let mut i: usize = 0;
        while i < other.segments.len()
            invariant
                i <= other.segments.len() <= self.segments.len(),
                forall|j: int|
                    0 <= j < i ==> same_ident(#[trigger] self@.segments[j], other@.segments[j]),
            decreases other.segments.len() - i,
        {
            if !self.segments[i].same(&other.segments[i]) {
                assert(self@.segments[i as int] == self.segments[i as int]@);
                assert(other@.segments[i as int] == other.segments[i as int]@);
                return false;
            }
            i += 1;
        }
        true
    }

    /// Counts the leading segments on which `self` and `other` agree.
    pub fn common_prefix(&self, other: &Path) -> (k: usize)
        ensures
            k == common_prefix_len(self@.segments, other@.segments),
            k <= self@.segments.len(),
            k <= other@.segments.len(),
    {
        let ghost a = self@.segments;
        let ghost b = other@.segments;
        let mut i: usize = 0;
        assert(a.skip(0) =~= a);
        assert(b.skip(0) =~= b);
        while i < self.segments.len() && i < other.segments.len() && self.segments[i].same(
            &other.segments[i],
        )
            invariant
                i <= self.segments.len(),
                i <= other.segments.len(),
                a == self@.segments,
                b == other@.segments,
                common_prefix_len(a, b) == i + common_prefix_len(
                    a.skip(i as int),
                    b.skip(i as int),
                ),
            decreases self.segments.len() - i,
        {
            assert(a.skip(i as int).skip(1) =~= a.skip(i as int + 1));
            assert(b.skip(i as int).skip(1) =~= b.skip(i as int + 1));
            i += 1;
        }
        i
    }

    /// The reference that code in the scope `self` writes for the item at
    /// `target`. With `fully_unambiguous` the reference always starts with
    /// `self` or `super`, so that no local name can shadow it; such a
    /// reference needs a target with a name.
    pub fn relative_to(&self, target: &Path, fully_unambiguous: bool) -> (p: Path)
        requires
            fully_unambiguous ==> target@.segments.len() > 0,
        ensures
            p@ == (PathView {
                leading_colon: false,
                segments: relative_segments(self@, target@, fully_unambiguous),
            }),
    {
        let mut segments: Vec<Ident> = Vec::new();
        if self.same(target) {
            if fully_unambiguous {
                push_item(&mut segments, Ident::from_rs("super"));
                push_item(&mut segments, target.name().clone());
                assert(ident_texts(segments@) =~= seq!["super"@, target@.segments.last()]);
            } else {
                push_item(&mut segments, Ident::from_rs("self"));
                assert(ident_texts(segments@) =~= seq!["self"@]);
            }
            return Path { leading_colon: false, segments };
        }
        let k = self.common_prefix(target);
        let ghost rest = target@.segments.skip(k as int);
        let ghost head: Seq<Seq<char>>;
        if k < self.segments.len() {
            let ups = self.segments.len() - k;
            let mut i: usize = 0;
            while i < ups
                invariant
                    i <= ups,
                    ident_texts(segments@) == supers(i as nat),
                decreases ups - i,
            {
                push_item(&mut segments, Ident::from_rs("super"));
                assert(ident_texts(segments@) =~= supers((i + 1) as nat));
                i += 1;
            }
            proof {
                head = supers(ups as nat);
            }
        } else if fully_unambiguous {
            push_item(&mut segments, Ident::from_rs("self"));
            proof {
                head = seq!["self"@];
            }
            assert(ident_texts(segments@) =~= head);
        } else {
            proof {
                head = Seq::empty();
            }
            assert(ident_texts(segments@) =~= head);
        }
        let mut j: usize = k;
        assert(rest.take(0) =~= Seq::<Seq<char>>::empty());
        assert(head + Seq::<Seq<char>>::empty() =~= head);
        while j < target.segments.len()
            invariant
                k <= j <= target.segments.len(),
                rest == target@.segments.skip(k as int),
                ident_texts(segments@) == head + rest.take(j - k),
            decreases target.segments.len() - j,
        {
            push_item(&mut segments, target.segments[j].clone());
            assert(ident_texts(segments@) =~= head + rest.take(j - k + 1));
            j += 1;
        }
        assert(rest.take(target.segments.len() - k) =~= rest);
        assert(Seq::<Seq<char>>::empty() + rest =~= rest);
        let ghost base = head + rest;
        if fully_unambiguous && segments.len() > 0 && segments[segments.len() - 1].is_rs("super") {
            push_item(&mut segments, Ident::from_rs("super"));
            push_item(&mut segments, target.name().clone());
            assert(ident_texts(segments@) =~= base + seq!["super"@, target@.segments.last()]);
        }
        Path { leading_colon: false, segments }
    }
}

impl Clone for Path {
    fn clone(&self) -> (r: Path)
        ensures
            r@ == self@,
    {
        let mut p = self.prefix(self.segments.len());
        p.leading_colon = self.leading_colon;
        assert(self@.segments.take(self.segments.len() as int) =~= self@.segments);
        p
    }
}

impl PartialOrd for Path {
    /// Paths are ordered as their Python source texts are in the dictionary.
    fn partial_cmp(&self, other: &Path) -> (r: Option<Ordering>) {
        let order = crate::text::compare_texts(self.to_py().as_str(), other.to_py().as_str());
        if order < 0 {
            Some(Ordering::Less)
        } else if order > 0 {
            Some(Ordering::Greater)
        } else {
            Some(Ordering::Equal)
        }
    }
}

impl vstd::std_specs::cmp::PartialOrdSpecImpl for Path {
    open spec fn obeys_partial_cmp_spec() -> bool {
        true
    }

    open spec fn partial_cmp_spec(&self, other: &Path) -> Option<Ordering> {
        Some(
            crate::ident::ordering_of(
                crate::text::text_order(path_to_py(self@), path_to_py(other@)),
            ),
        )
    }
}

impl Default for Path {
    fn default() -> (p: Path)
        ensures
            p@ == (PathView { leading_colon: false, segments: Seq::empty() }),
    {
        let p = Path { leading_colon: false, segments: Vec::new() };
        assert(p@.segments =~= Seq::empty());
        p
    }
}

impl PartialEq for Path {
    /// Two paths are equal when they are rooted alike and their segments are
    /// equal one by one.
    fn eq(&self, other: &Path) -> (r: bool) {
        self.same(other)
    }
}

impl Eq for Path {

}

impl vstd::std_specs::cmp::PartialEqSpecImpl for Path {
    open spec fn obeys_eq_spec() -> bool {
        true
    }

    open spec fn eq_spec(&self, other: &Path) -> bool {
        same_path(self@, other@)
    }
}

} // verus!

verus! {

/// The number of steps up with which a reference starts.
pub open spec fn ascend_steps(segments: Seq<Seq<char>>) -> nat
    decreases segments.len(),
{
    if segments.len() > 0 && segments[0] == "super"@ {
        1 + ascend_steps(segments.skip(1))
    } else {
        0
    }
}

/// A reference that starts with `n` steps up and goes on with `rest` has
/// the steps of `rest` on top of those `n`.
pub proof fn lemma_ascend_steps_supers(n: nat, rest: Seq<Seq<char>>)
    ensures
        ascend_steps(supers(n) + rest) == n + ascend_steps(rest),
    decreases n,
{
    if n == 0 {
        assert(supers(0) + rest =~= rest);
    } else {
        let all = supers(n) + rest;
        assert(all[0] == "super"@);
        assert(all.skip(1) =~= supers((n - 1) as nat) + rest);
        lemma_ascend_steps_supers((n - 1) as nat, rest);
    }
}

/// The common prefix is no longer than either path.
pub proof fn lemma_common_prefix_bounds(a: Seq<Seq<char>>, b: Seq<Seq<char>>)
    ensures
        common_prefix_len(a, b) <= a.len(),
        common_prefix_len(a, b) <= b.len(),
    decreases a.len(),
{
    if a.len() > 0 && b.len() > 0 && same_ident(a[0], b[0]) {
        lemma_common_prefix_bounds(a.skip(1), b.skip(1));
    }
}

/// Where `a` begins with `b`, their common prefix is all of `b`.
pub proof fn lemma_common_prefix_of_prefix(a: Seq<Seq<char>>, b: Seq<Seq<char>>)
    requires
        segments_start_with(a, b),
    ensures
        common_prefix_len(a, b) == b.len(),
    decreases b.len(),
{
    if b.len() > 0 {
        assert(same_ident(a[0], b[0]));
        assert(segments_start_with(a.skip(1), b.skip(1))) by {
            assert forall|i: int| 0 <= i < b.skip(1).len() implies same_ident(
                #[trigger] a.skip(1)[i],
                b.skip(1)[i],
            ) by {
                assert(same_ident(a[i + 1], b[i + 1]));
            }
        }
        lemma_common_prefix_of_prefix(a.skip(1), b.skip(1));
    }
}

/// The reference from a path to itself is never empty.
pub proof fn lemma_relative_to_self_not_empty(p: PathView, full: bool)
    ensures
        relative_segments(p, p, full).len() > 0,
{
    assert(same_path(p, p));
}

/// The reference from a scope to an item strictly below it steps up nowhere
/// at its start. Left out is the one case in which the first segment below
/// the scope is itself spelled `super` and no `self` stands before it.
pub proof fn lemma_relative_to_descendant(from: PathView, to: PathView, full: bool)
    requires
        segments_start_with(to.segments, from.segments),
        to.segments.len() > from.segments.len(),
        full || to.segments[from.segments.len() as int] != "super"@,
    ensures
        ascend_steps(relative_segments(from, to, full)) == 0,
{
    reveal_strlit("super");
    reveal_strlit("self");
    assert(!same_path(from, to));
    assert(segments_start_with(from.segments, from.segments));
    lemma_common_prefix_symmetric(from.segments, to.segments);
    lemma_common_prefix_of_prefix(to.segments, from.segments);
    let k = common_prefix_len(from.segments, to.segments);
    assert(k == from.segments.len());
    let rest = to.segments.skip(k as int);
    assert(rest[0] == to.segments[k as int]);
    if full {
        let base = seq!["self"@] + rest;
        assert(base[0] == "self"@);
        assert("self"@ != "super"@) by {
            assert("self"@.len() == 4);
            assert("super"@.len() == 5);
        }
        assert((base + seq!["super"@, to.segments.last()])[0] == "self"@);
    }
}

/// The common prefix of two paths does not depend on their order.
pub proof fn lemma_common_prefix_symmetric(a: Seq<Seq<char>>, b: Seq<Seq<char>>)
    ensures
        common_prefix_len(a, b) == common_prefix_len(b, a),
    decreases a.len(),
{
    if a.len() > 0 && b.len() > 0 && same_ident(a[0], b[0]) {
        lemma_common_prefix_symmetric(a.skip(1), b.skip(1));
    }
}

/// Between two different paths with a common prefix of `k` segments, the
/// reference starts with as many steps up as `from` has segments behind the
/// prefix. Left out are the targets whose first segment behind the prefix is
/// itself spelled `super`, unless `self` stands before it, and the
/// unambiguous references to an ancestor, which are completed by one more
/// step up and the ancestor's name.
pub proof fn lemma_relative_to_ascends(from: PathView, to: PathView, full: bool)
    requires
        !same_path(from, to),
        ({
            let k = common_prefix_len(from.segments, to.segments);
            let rest = to.segments.skip(k as int);
            &&& (k < from.segments.len() || !full) ==> (rest.len() == 0 || rest[0] != "super"@)
            &&& (full && k < from.segments.len()) ==> rest.len() > 0
        }),
    ensures
        ascend_steps(relative_segments(from, to, full)) == from.segments.len() - common_prefix_len(
            from.segments,
            to.segments,
        ),
{
    reveal_strlit("super");
    reveal_strlit("self");
    lemma_common_prefix_bounds(from.segments, to.segments);
    let k = common_prefix_len(from.segments, to.segments);
    let rest = to.segments.skip(k as int);
    let tail = seq!["super"@, to.segments.last()];
    assert("self"@ != "super"@) by {
        assert("self"@.len() == 4);
        assert("super"@.len() == 5);
    }
    if k < from.segments.len() {
        let n = (from.segments.len() - k) as nat;
        let base = supers(n) + rest;
        if rest.len() == 0 {
            assert(!full);
            lemma_ascend_steps_supers(n, rest);
        } else {
            lemma_ascend_steps_supers(n, rest);
            lemma_ascend_steps_supers(n, rest + tail);
            assert(base + tail =~= supers(n) + (rest + tail));
            assert((rest + tail)[0] == rest[0]);
        }
    } else if full {
        let base = seq!["self"@] + rest;
        assert(base[0] == "self"@);
        assert((base + tail)[0] == "self"@);
    } else {
    }
}

} // verus!

verus! {

/// Whether `modules` holds the text `name`.
pub fn holds_text(modules: &Vec<String>, name: &str) -> (r: bool)
    ensures
        r == views(modules@).contains(name@),
{
    let mut i: usize = 0;
    while i < modules.len()
        invariant
            i <= modules.len(),
            forall|j: int| 0 <= j < i ==> views(modules@)[j] != name@,
        decreases modules.len() - i,
    {
        assert(views(modules@)[i as int] == modules@[i as int]@);
        if crate::text::str_eq(modules[i].as_str(), name) {
            return true;
        }
        i += 1;
    }
    false
}

/// The Python source text of the first `n` segments of `p`.
pub open spec fn prefix_py(p: PathView, n: int) -> Seq<char> {
    path_to_py(PathView { leading_colon: false, segments: p.segments.take(n) })
}

/// How many of the segments of `p` name the module that is imported to reach
/// `p`: the longest run of leading segments, shorter than `p`, at most `n`
/// long, that `importable` holds as a module; one segment where it holds
/// none.
pub open spec fn package_len(p: PathView, importable: Seq<Seq<char>>, n: int) -> int
    decreases n,
{
    if n <= 1 {
        1
    } else if importable.contains(prefix_py(p, n)) {
        n
    } else {
        package_len(p, importable, n - 1)
    }
}

/// The modules that are tried, from the longest on, to find the one whose
/// import reaches `p`: what the leading segments of `p` name, but for `p`
/// itself and for its first segment, which is imported where nothing longer
/// is.
pub open spec fn import_candidate_texts(p: PathView) -> Seq<Seq<char>> {
    Seq::new(
        if p.segments.len() >= 2 {
            (p.segments.len() - 2) as nat
        } else {
            0
        },
        |i: int| prefix_py(p, p.segments.len() - 1 - i),
    )
}

/// The attributes that are read, one from the other, behind the import of a
/// module.
pub open spec fn attribute_chain(segments: Seq<Seq<char>>) -> Seq<char>
    decreases segments.len(),
{
    if segments.len() == 0 {
        Seq::empty()
    } else {
        attribute_chain(segments.drop_last()) + ".getattr(::pyo3::intern!(py, "@
            + crate::emit::literal(py_form(segments.last())) + "))?"@
    }
}

/// The expression that fetches the object at `p` from the interpreter: the
/// import of the innermost module on the way that can be imported, followed
/// by the attributes that lead on from it.
pub open spec fn import_expression(p: PathView, importable: Seq<Seq<char>>) -> Seq<char> {
    let k = package_len(p, importable, p.segments.len() - 1);
    "py.import(::pyo3::intern!(py, "@ + crate::emit::literal(prefix_py(p, k)) + "))?"@
        + attribute_chain(p.segments.skip(k))
}

impl Path {
    /// The modules that are tried, from the longest on, to find the one
    /// whose import reaches this path.
    pub fn import_candidates(&self) -> (names: Vec<String>)
        ensures
            views(names@) == import_candidate_texts(self@),
    {
        let ghost goal = import_candidate_texts(self@);
        let mut names: Vec<String> = Vec::new();
        assert(views(names@) =~= goal.take(0));
        if self.segments.len() < 2 {
            assert(goal.take(0) =~= goal);
            return names;
        }
        let mut n: usize = self.segments.len() - 1;
        while n > 1
            invariant
                1 <= n <= self.segments.len() - 1,
                goal == import_candidate_texts(self@),
                names.len() == self.segments.len() - 1 - n,
                views(names@) == goal.take(names.len() as int),
            decreases n,
        {
            push_item(&mut names, self.prefix(n).to_py());
            assert(views(names@) =~= goal.take(names.len() as int));
            n -= 1;
        }
        assert(goal.take(names.len() as int) =~= goal);
        names
    }

    /// Writes the expression that fetches the object at this path from the
    /// interpreter, given the modules that can be imported.
    pub fn import_quote(&self, importable: &Vec<String>) -> (s: String)
        requires
            self@.segments.len() > 0,
        ensures
            s@ == import_expression(self@, views(importable@)),
    {
        let mut n: usize = self.segments.len() - 1;
        while n > 1 && !holds_text(importable, self.prefix(n).to_py().as_str())
            invariant
                n <= self.segments.len() - 1,
                package_len(self@, views(importable@), self@.segments.len() - 1) == package_len(
                    self@,
                    views(importable@),
                    n as int,
                ),
            decreases n,
        {
            n -= 1;
        }
        let k: usize = if n <= 1 {
            1
        } else {
            n
        };
        assert(k == package_len(self@, views(importable@), self@.segments.len() - 1));
        let package = self.prefix(k).to_py();
        let mut s = String::from_str("py.import(::pyo3::intern!(py, ");
        s.append(crate::emit::string_literal(package.as_str()).as_str());
        s.append("))?");
        let ghost head = s@;
        let ghost rest = self@.segments.skip(k as int);
        let mut i: usize = k;
        assert(rest.take(0) =~= Seq::<Seq<char>>::empty());
        assert(head + Seq::<char>::empty() =~= head);
        while i < self.segments.len()
            invariant
                k <= i <= self.segments.len(),
                rest == self@.segments.skip(k as int),
                s@ == head + attribute_chain(rest.take(i - k)),
            decreases self.segments.len() - i,
        {
            let ghost next = rest.take(i - k + 1);
            assert(next.drop_last() =~= rest.take(i - k));
            assert(next.last() == self@.segments[i as int]);
            let ghost before = s@;
            s.append(".getattr(::pyo3::intern!(py, ");
            s.append(crate::emit::string_literal(self.segments[i].as_py()).as_str());
            s.append("))?");
            assert(s@ =~= head + attribute_chain(next));
            i += 1;
        }
        assert(rest.take(self.segments.len() - k) =~= rest);
        s
    }
}

} // verus!
