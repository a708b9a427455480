//! Square brackets in annotations: the names that the mapping of an
//! annotation keeps are whole expressions, never fragments cut out of one.

use crate::text::{
    bracket_net, closing, count_char, group_end, is_space, join, regrouped, split_at_char, trim,
    trim_end, trim_start,
};
use crate::typing::from_py::{
    arguments, held, list_item, parse_each, parse_guarded, parse_type, simple_type, unwrapped,
    wrapped,
};
use crate::typing::TypeView;
use vstd::prelude::*;

verus! {

/// Whether `c` is a square bracket.
pub open spec fn is_bracket(c: char) -> bool {
    c == '[' || c == ']'
}

/// Whether `s` has as many opening square brackets as closing ones.
pub open spec fn balanced(s: Seq<char>) -> bool {
    bracket_net(s) == 0
}

/// By how much the opening square brackets of all `parts` outnumber the
/// closing ones.
pub open spec fn total_net(parts: Seq<Seq<char>>) -> int
    decreases parts.len(),
{
    if parts.len() == 0 {
        0
    } else {
        total_net(parts.drop_last()) + bracket_net(parts.last())
    }
}

/// Whether no character of `s` from position `i` on is a square bracket.
pub open spec fn plain_from(s: Seq<char>, i: int) -> bool
    decreases s.len() - i,
{
    i < 0 || i >= s.len() || (!is_bracket(s[i]) && plain_from(s, i + 1))
}

/// Whether every name of a class or alias in `t` has as many opening square
/// brackets as closing ones.
pub open spec fn names_balanced(t: TypeView) -> bool
    decreases t,
{
    match t {
        TypeView::Other(name) => balanced(name),
        TypeView::Optional(inner) => names_balanced(*inner),
        TypeView::Union(arms) => forall|i: int|
            0 <= i < arms.len() ==> names_balanced(#[trigger] arms[i]),
        TypeView::PyDict { key_type, value_type } => names_balanced(*key_type) && names_balanced(
            *value_type,
        ),
        TypeView::PyFrozenSet(inner) => names_balanced(*inner),
        TypeView::PyList(inner) => names_balanced(*inner),
        TypeView::PySet(inner) => names_balanced(*inner),
        TypeView::PyTuple(items) => forall|i: int|
            0 <= i < items.len() ==> names_balanced(#[trigger] items[i]),
        TypeView::PyFunction { param_types, return_annotation } => {
            &&& forall|i: int|
                0 <= i < param_types.len() ==> names_balanced(#[trigger] param_types[i])
            &&& names_balanced(*return_annotation)
        },
        _ => true,
    }
}

/// A character occurs in two texts, one behind the other, as often as in
/// both together.
pub proof fn lemma_count_add(a: Seq<char>, b: Seq<char>, c: char)
    ensures
        count_char(a + b, c) == count_char(a, c) + count_char(b, c),
    decreases b.len(),
{
    if b.len() == 0 {
        assert(a + b =~= a);
    } else {
        assert((a + b).drop_last() =~= a + b.drop_last());
        lemma_count_add(a, b.drop_last(), c);
    }
}

/// The brackets that two texts leave open add up.
pub proof fn lemma_net_add(a: Seq<char>, b: Seq<char>)
    ensures
        bracket_net(a + b) == bracket_net(a) + bracket_net(b),
{
    lemma_count_add(a, b, '[');
    lemma_count_add(a, b, ']');
}

/// One character opens a bracket, closes one, or does neither.
proof fn lemma_net_one(c: char)
    ensures
        bracket_net(seq![c]) == (if c == '[' {
            1int
        } else if c == ']' {
            -1int
        } else {
            0int
        }),
{
    reveal_with_fuel(count_char, 2);
    assert(seq![c].drop_last() =~= Seq::<char>::empty());
}

/// White space is no bracket, so leaving it out changes no count.
proof fn lemma_net_trim_start(s: Seq<char>)
    ensures
        bracket_net(trim_start(s)) == bracket_net(s),
    decreases s.len(),
{
    if s.len() > 0 && is_space(s[0]) {
        lemma_net_trim_start(s.skip(1));
        assert(s =~= seq![s[0]] + s.skip(1));
        lemma_net_add(seq![s[0]], s.skip(1));
        lemma_net_one(s[0]);
    }
}

/// White space is no bracket, so leaving it out changes no count.
proof fn lemma_net_trim_end(s: Seq<char>)
    ensures
        bracket_net(trim_end(s)) == bracket_net(s),
    decreases s.len(),
{
    if s.len() > 0 && is_space(s.last()) {
        lemma_net_trim_end(s.drop_last());
    }
}

/// A text without the white space around it has the brackets of the text.
pub proof fn lemma_net_trim(s: Seq<char>)
    ensures
        bracket_net(trim(s)) == bracket_net(s),
{
    lemma_net_trim_start(s);
    lemma_net_trim_end(trim_start(s));
}

/// The brackets that two lists of parts leave open add up.
proof fn lemma_total_add(a: Seq<Seq<char>>, b: Seq<Seq<char>>)
    ensures
        total_net(a + b) == total_net(a) + total_net(b),
    decreases b.len(),
{
    if b.len() == 0 {
        assert(a + b =~= a);
    } else {
        assert((a + b).drop_last() =~= a + b.drop_last());
        lemma_total_add(a, b.drop_last());
    }
}

/// A single part leaves open what it leaves open.
proof fn lemma_total_one(part: Seq<char>)
    ensures
        total_net(seq![part]) == bracket_net(part),
{
    reveal_with_fuel(total_net, 2);
    assert(seq![part].drop_last() =~= Seq::<Seq<char>>::empty());
}

/// Cutting a text at a separator that is no bracket loses no bracket.
proof fn lemma_split_net(s: Seq<char>, sep: char, cur: Seq<char>)
    requires
        !is_bracket(sep),
    ensures
        total_net(split_at_char(s, sep, cur)) == bracket_net(cur) + bracket_net(s),
    decreases s.len(),
{
    if s.len() == 0 {
        lemma_total_one(cur);
    } else {
        assert(s =~= seq![s[0]] + s.skip(1));
        lemma_net_add(seq![s[0]], s.skip(1));
        lemma_net_one(s[0]);
        if s[0] == sep {
            lemma_split_net(s.skip(1), sep, Seq::empty());
            lemma_total_add(seq![cur], split_at_char(s.skip(1), sep, Seq::empty()));
            lemma_total_one(cur);
        } else {
            lemma_split_net(s.skip(1), sep, cur.push(s[0]));
            assert(cur.push(s[0]) =~= cur + seq![s[0]]);
            lemma_net_add(cur, seq![s[0]]);
        }
    }
}

/// Parts without the white space around them have the brackets of the
/// parts.
proof fn lemma_trimmed_net(parts: Seq<Seq<char>>)
    ensures
        total_net(parts.map_values(|p: Seq<char>| trim(p))) == total_net(parts),
    decreases parts.len(),
{
    let cut = parts.map_values(|p: Seq<char>| trim(p));
    if parts.len() > 0 {
        assert(cut.drop_last() =~= parts.drop_last().map_values(|p: Seq<char>| trim(p)));
        lemma_trimmed_net(parts.drop_last());
        lemma_net_trim(parts.last());
    }
}

/// Parts joined by a separator that is no bracket have the brackets of the
/// parts.
proof fn lemma_join_net(parts: Seq<Seq<char>>, sep: char)
    requires
        !is_bracket(sep),
    ensures
        bracket_net(join(parts, seq![sep])) == total_net(parts),
    decreases parts.len(),
{
    if parts.len() == 1 {
        assert(parts =~= seq![parts[0]]);
        lemma_total_one(parts[0]);
    } else if parts.len() > 1 {
        let before = join(parts.drop_last(), seq![sep]);
        lemma_join_net(parts.drop_last(), sep);
        lemma_net_add(before + seq![sep], parts.last());
        lemma_net_add(before, seq![sep]);
        lemma_net_one(sep);
    }
}

/// Where the parts from `j` on close, together, the `depth` brackets that
/// are open, a group that starts at `j` ends, and closes them exactly.
proof fn lemma_closing_net(parts: Seq<Seq<char>>, j: int, depth: int)
    requires
        0 <= j < parts.len(),
        depth + total_net(parts.skip(j)) == 0,
    ensures
        j < closing(parts, j, depth) <= parts.len(),
        depth + total_net(parts.subrange(j, closing(parts, j, depth))) == 0,
    decreases parts.len() - j,
{
    let d = depth + bracket_net(parts[j]);
    assert(parts.skip(j) =~= seq![parts[j]] + parts.skip(j + 1));
    lemma_total_add(seq![parts[j]], parts.skip(j + 1));
    lemma_total_one(parts[j]);
    if d == 0 {
        assert(parts.subrange(j, j + 1) =~= seq![parts[j]]);
    } else {
        if j + 1 >= parts.len() {
            assert(parts.skip(j + 1) =~= Seq::<Seq<char>>::empty());
        }
        lemma_closing_net(parts, j + 1, d);
        let c = closing(parts, j + 1, d);
        assert(parts.subrange(j, c) =~= seq![parts[j]] + parts.subrange(j + 1, c));
        lemma_total_add(seq![parts[j]], parts.subrange(j + 1, c));
    }
}

/// Where the parts from `i` on have as many opening brackets as closing
/// ones, so has each group into which they are joined again.
proof fn lemma_regrouped_balanced(parts: Seq<Seq<char>>, sep: char, i: int)
    requires
        !is_bracket(sep),
        0 <= i <= parts.len(),
        total_net(parts.skip(i)) == 0,
    ensures
        forall|k: int|
            0 <= k < regrouped(parts, sep, i).len() ==> balanced(
                #[trigger] regrouped(parts, sep, i)[k],
            ),
    decreases parts.len() - i,
{
    if i < parts.len() {
        lemma_closing_net(parts, i, 0);
        let e = group_end(parts, i);
        let group = parts.subrange(i, e);
        lemma_join_net(group, sep);
        assert(parts.skip(i) =~= group + parts.skip(e));
        lemma_total_add(group, parts.skip(e));
        lemma_regrouped_balanced(parts, sep, e);
        let rest = regrouped(parts, sep, e);
        let all = regrouped(parts, sep, i);
        assert(all == seq![join(group, seq![sep])] + rest);
        assert forall|k: int| 0 <= k < all.len() implies balanced(#[trigger] all[k]) by {
            if k > 0 {
                assert(all[k] == rest[k - 1]);
            }
        }
    }
}

/// The arguments of a text with as many opening brackets as closing ones
/// have as many opening brackets as closing ones, each of them: no argument
/// is cut out of the middle of a bracketed expression.
pub proof fn lemma_arguments_balanced(s: Seq<char>, sep: char)
    requires
        balanced(s),
        !is_bracket(sep),
    ensures
        forall|k: int|
            0 <= k < arguments(s, sep).len() ==> balanced(#[trigger] arguments(s, sep)[k]),
{
    let pieces = split_at_char(s, sep, Seq::empty());
    let cut = pieces.map_values(|p: Seq<char>| trim(p));
    lemma_split_net(s, sep, Seq::empty());
    lemma_trimmed_net(pieces);
    assert(cut.skip(0) =~= cut);
    lemma_regrouped_balanced(cut, sep, 0);
}

/// A text without brackets from `i` on leaves none open from there on.
proof fn lemma_plain_net(s: Seq<char>, i: int)
    requires
        0 <= i <= s.len(),
        plain_from(s, i),
    ensures
        bracket_net(s.skip(i)) == 0,
    decreases s.len() - i,
{
    if i < s.len() {
        lemma_plain_net(s, i + 1);
        assert(s.skip(i) =~= seq![s[i]] + s.skip(i + 1));
        lemma_net_add(seq![s[i]], s.skip(i + 1));
        lemma_net_one(s[i]);
    } else {
        assert(s.skip(i) =~= Seq::<char>::empty());
    }
}

/// What stands between a start and an end has the brackets of the whole
/// without those of the start and of the end.
proof fn lemma_unwrapped_net(s: Seq<char>, pre: Seq<char>, suf: Seq<char>)
    requires
        wrapped(s, pre, suf),
    ensures
        bracket_net(s) == bracket_net(pre) + bracket_net(unwrapped(s, pre, suf)) + bracket_net(
            suf,
        ),
{
    let mid = unwrapped(s, pre, suf);
    let head = s.subrange(0, pre.len() as int);
    let tail = s.subrange(s.len() - suf.len(), s.len() as int);
    assert(s =~= head + mid + tail);
    lemma_net_add(head + mid, tail);
    lemma_net_add(head, mid);
}

/// A generic form opens one bracket before its arguments and closes it
/// behind them: the arguments of a form that is balanced are balanced.
proof fn lemma_form_balanced(s: Seq<char>, pre: Seq<char>)
    requires
        balanced(s),
        wrapped(s, pre, "]"@),
        pre.len() > 0,
        pre.last() == '[',
        plain_from(pre.drop_last(), 0),
    ensures
        balanced(unwrapped(s, pre, "]"@)),
{
    reveal_strlit("]");
    lemma_unwrapped_net(s, pre, "]"@);
    assert("]"@ =~= seq![']']);
    lemma_net_one(']');
    lemma_plain_net(pre.drop_last(), 0);
    assert(pre.drop_last().skip(0) =~= pre.drop_last());
}

/// What stands between a start and an end without brackets is balanced where
/// the whole is.
proof fn lemma_plain_wrap_balanced(s: Seq<char>, pre: Seq<char>, suf: Seq<char>)
    requires
        balanced(s),
        wrapped(s, pre, suf),
        plain_from(pre, 0),
        plain_from(suf, 0),
    ensures
        balanced(unwrapped(s, pre, suf)),
{
    lemma_unwrapped_net(s, pre, suf);
    lemma_plain_net(pre, 0);
    lemma_plain_net(suf, 0);
    assert(pre.skip(0) =~= pre);
    assert(suf.skip(0) =~= suf);
}

/// The type of a known name holds no name of a class.
proof fn lemma_simple_balanced(s: Seq<char>)
    requires
        simple_type(s) is Some,
    ensures
        names_balanced(simple_type(s)->0),
{
    reveal_with_fuel(names_balanced, 2);
    let t = simple_type(s)->0;
    match t {
        TypeView::Union(arms) => {
            assert(arms =~= seq![TypeView::Unknown]);
            assert forall|i: int| 0 <= i < arms.len() implies names_balanced(
                #[trigger] arms[i],
            ) by {
                assert(arms[i] == TypeView::Unknown);
            }
        },
        TypeView::PyTuple(items) => {
            assert(items =~= seq![TypeView::Unknown]);
            assert forall|i: int| 0 <= i < items.len() implies names_balanced(
                #[trigger] items[i],
            ) by {
                assert(items[i] == TypeView::Unknown);
            }
        },
        TypeView::PyFunction { param_types, return_annotation } => {
            assert(param_types =~= seq![TypeView::PyEllipsis]);
            assert(*return_annotation == TypeView::Unknown);
            assert forall|i: int| 0 <= i < param_types.len() implies names_balanced(
                #[trigger] param_types[i],
            ) by {
                assert(param_types[i] == TypeView::PyEllipsis);
            }
        },
        TypeView::PyDict { key_type, value_type } => {
            assert(*key_type == TypeView::Unknown);
            assert(*value_type == TypeView::Unknown);
        },
        TypeView::PyList(inner) => {
            assert(*inner == TypeView::Unknown);
        },
        _ => {},
    }
}

/// The type of a balanced part holds balanced names only.
proof fn lemma_guarded_balanced(bound: nat, x: Seq<char>)
    requires
        balanced(x),
    ensures
        names_balanced(parse_guarded(bound, x)),
    decreases bound, 0nat,
{
    if x.len() < bound {
        lemma_parse_names_balanced(x);
    }
}

/// The types of balanced parts hold balanced names only.
proof fn lemma_each_balanced(bound: nat, a: Seq<Seq<char>>)
    requires
        forall|i: int| 0 <= i < a.len() ==> balanced(#[trigger] a[i]),
    ensures
        forall|i: int| 0 <= i < a.len() ==> names_balanced(#[trigger] parse_each(bound, a)[i]),
        parse_each(bound, a).len() == a.len(),
    decreases bound, 1nat,
{
    assert forall|i: int| 0 <= i < a.len() implies names_balanced(
        #[trigger] parse_each(bound, a)[i],
    ) by {
        lemma_guarded_balanced(bound, a[i]);
    }
}

/// The item of a balanced list form is balanced.
proof fn lemma_list_item_balanced(s: Seq<char>)
    requires
        balanced(s),
        list_item(s) is Some,
    ensures
        balanced(list_item(s)->0),
{
    reveal_strlit("list[");
    reveal_strlit("Sequence[");
    reveal_strlit("Iterable[");
    reveal_strlit("Iterator[");
    reveal_with_fuel(plain_from, 10);
    if wrapped(s, "list["@, "]"@) {
        lemma_form_balanced(s, "list["@);
    } else if wrapped(s, "Sequence["@, "]"@) {
        lemma_form_balanced(s, "Sequence["@);
    } else if wrapped(s, "Iterable["@, "]"@) {
        lemma_form_balanced(s, "Iterable["@);
    } else {
        lemma_form_balanced(s, "Iterator["@);
    }
}

/// What a balanced text only wraps or qualifies is balanced.
proof fn lemma_held_balanced(s: Seq<char>)
    requires
        balanced(s),
        held(s) is Some,
    ensures
        balanced(held(s)->0),
{
    reveal_strlit("type[");
    reveal_strlit("<class '");
    reveal_strlit("<enum '");
    reveal_strlit("'>");
    reveal_strlit("typing.");
    reveal_strlit("collections.abc.");
    reveal_strlit("collections.");
    reveal_strlit("");
    reveal_with_fuel(plain_from, 18);
    if wrapped(s, "type["@, "]"@) {
        lemma_form_balanced(s, "type["@);
    } else if wrapped(s, "<class '"@, "'>"@) {
        lemma_plain_wrap_balanced(s, "<class '"@, "'>"@);
    } else if wrapped(s, "<enum '"@, "'>"@) {
        lemma_plain_wrap_balanced(s, "<enum '"@, "'>"@);
    } else if wrapped(s, "typing."@, ""@) {
        lemma_plain_wrap_balanced(s, "typing."@, ""@);
    } else if wrapped(s, "collections.abc."@, ""@) {
        lemma_plain_wrap_balanced(s, "collections.abc."@, ""@);
    } else {
        lemma_plain_wrap_balanced(s, "collections."@, ""@);
    }
}

/// The arguments of a balanced generic form are balanced, each of them.
proof fn lemma_form_arguments_balanced(s: Seq<char>, pre: Seq<char>)
    requires
        balanced(s),
        wrapped(s, pre, "]"@),
        pre.len() > 0,
        pre.last() == '[',
        plain_from(pre.drop_last(), 0),
    ensures
        forall|k: int|
            0 <= k < arguments(unwrapped(s, pre, "]"@), ',').len() ==> balanced(
                #[trigger] arguments(unwrapped(s, pre, "]"@), ',')[k],
            ),
{
    lemma_form_balanced(s, pre);
    lemma_arguments_balanced(unwrapped(s, pre, "]"@), ',');
}

/// Whatever the annotation, where it has as many opening square brackets as
/// closing ones, so has every name of a class or alias that the type it
/// maps to holds, at any depth: no container, optional or union holds a
/// fragment of a larger expression.
pub proof fn lemma_parse_names_balanced(s: Seq<char>)
    requires
        balanced(s),
    ensures
        names_balanced(parse_type(s)),
    decreases s.len(), 2nat,
{
    reveal_with_fuel(names_balanced, 2);
    reveal_strlit("dict[");
    reveal_strlit("frozenset[");
    reveal_strlit("set[");
    reveal_strlit("tuple[");
    reveal_strlit("Callable[");
    reveal_with_fuel(plain_from, 11);
    let n = s.len();
    let arms = arguments(s, '|');
    if arms.len() >= 2 {
        lemma_arguments_balanced(s, '|');
        if arms.len() == 2 && (arms[0] == "None"@) != (arms[1] == "None"@) {
            lemma_guarded_balanced(n, arms[0]);
            lemma_guarded_balanced(n, arms[1]);
        } else {
            lemma_each_balanced(n, arms);
        }
    } else if simple_type(s) is Some {
        lemma_simple_balanced(s);
    } else if wrapped(s, "dict["@, "]"@) {
        lemma_form_arguments_balanced(s, "dict["@);
        lemma_each_balanced(n, arguments(unwrapped(s, "dict["@, "]"@), ','));
    } else if wrapped(s, "frozenset["@, "]"@) {
        lemma_form_balanced(s, "frozenset["@);
        lemma_guarded_balanced(n, unwrapped(s, "frozenset["@, "]"@));
    } else if list_item(s) is Some {
        lemma_list_item_balanced(s);
        lemma_guarded_balanced(n, list_item(s)->0);
    } else if wrapped(s, "set["@, "]"@) {
        lemma_form_balanced(s, "set["@);
        lemma_guarded_balanced(n, unwrapped(s, "set["@, "]"@));
    } else if wrapped(s, "tuple["@, "]"@) {
        lemma_form_arguments_balanced(s, "tuple["@);
        lemma_each_balanced(n, arguments(unwrapped(s, "tuple["@, "]"@), ','));
    } else if wrapped(s, "Callable["@, "]"@) {
        lemma_form_arguments_balanced(s, "Callable["@);
        lemma_each_balanced(n, arguments(unwrapped(s, "Callable["@, "]"@), ','));
    } else if held(s) is Some {
        lemma_held_balanced(s);
        lemma_guarded_balanced(n, held(s)->0);
    }
}

} // verus!
