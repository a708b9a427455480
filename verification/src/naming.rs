//! Names for generated members that no attribute of the scope bears.

use crate::config::{forbidden_function_name, is_forbidden_function_name};
use crate::ident::{py_form, rs_form, same_ident, Ident};
use crate::text::{push_char, views};
use vstd::prelude::*;

verus! {

/// The character of the digit `d`.
pub open spec fn digit(d: nat) -> char {
    if d == 0 {
        '0'
    } else if d == 1 {
        '1'
    } else if d == 2 {
        '2'
    } else if d == 3 {
        '3'
    } else if d == 4 {
        '4'
    } else if d == 5 {
        '5'
    } else if d == 6 {
        '6'
    } else if d == 7 {
        '7'
    } else if d == 8 {
        '8'
    } else {
        '9'
    }
}

/// The decimal numeral of `n`.
pub open spec fn decimal(n: nat) -> Seq<char>
    decreases n,
{
    if n < 10 {
        seq![digit(n)]
    } else {
        decimal(n / 10).push(digit(n % 10))
    }
}

/// The character of the digit `d`.
fn digit_char(d: usize) -> (c: char)
    requires
        d < 10,
    ensures
        c == digit(d as nat),
{
    if d == 0 {
        '0'
    } else if d == 1 {
        '1'
    } else if d == 2 {
        '2'
    } else if d == 3 {
        '3'
    } else if d == 4 {
        '4'
    } else if d == 5 {
        '5'
    } else if d == 6 {
        '6'
    } else if d == 7 {
        '7'
    } else if d == 8 {
        '8'
    } else {
        '9'
    }
}

/// Appends the decimal numeral of `n` to `s`.
pub fn push_decimal(s: &mut String, n: usize)
    ensures
        final(s)@ == old(s)@ + decimal(n as nat),
    decreases n,
{
    if n < 10 {
        push_char(s, digit_char(n));
        assert(s@ =~= old(s)@ + decimal(n as nat));
    } else {
        push_decimal(s, n / 10);
        push_char(s, digit_char(n % 10));
        assert(s@ =~= old(s)@ + decimal(n as nat));
    }
}

/// The `i`-th name that is tried for a member called `base`: `base` itself,
/// then `base` with the numerals from 1 on behind it.
pub open spec fn candidate(base: Seq<char>, i: nat) -> Seq<char> {
    if i == 0 {
        rs_form(base)
    } else {
        rs_form(base + decimal(i))
    }
}

/// Whether the name `c` is not free in a scope that defines `names`: an
/// attribute of the scope bears it, or generated code keeps it for itself.
pub open spec fn taken(names: Seq<Seq<char>>, c: Seq<char>) -> bool {
    forbidden_function_name(py_form(c)) || exists|k: int|
        0 <= k < names.len() && same_ident(#[trigger] names[k], c)
}

/// The first number from `i` on whose candidate is free. The search ends
/// behind as many candidates as the scope has names and one more.
pub open spec fn fresh_index(names: Seq<Seq<char>>, base: Seq<char>, i: nat) -> nat
    decreases names.len() + 1 - i,
{
    if i > names.len() || !taken(names, candidate(base, i)) {
        i
    } else {
        fresh_index(names, base, i + 1)
    }
}

/// The name for a generated member called `base` in a scope that defines
/// `names`.
pub open spec fn fresh(names: Seq<Seq<char>>, base: Seq<char>) -> Seq<char> {
    candidate(base, fresh_index(names, base, 0))
}

/// Whether the scope that defines `names` has the name of `id` in use.
pub fn is_taken(names: &Vec<Ident>, id: &Ident) -> (r: bool)
    ensures
        r == taken(views(names@), id@),
{
    if is_forbidden_function_name(id.as_py()) {
        return true;
    }
    let mut k: usize = 0;
    while k < names.len()
        invariant
            k <= names.len(),
            forall|j: int| 0 <= j < k ==> !same_ident(#[trigger] views(names@)[j], id@),
        decreases names.len() - k,
    {
        if names[k].same(id) {
            assert(views(names@)[k as int] == names@[k as int]@);
            return true;
        }
        assert(views(names@)[k as int] == names@[k as int]@);
        k += 1;
    }
    false
}

/// The `i`-th name that is tried for a member called `base`.
pub fn candidate_name(base: &str, i: usize) -> (id: Ident)
    ensures
        id@ == candidate(base@, i as nat),
{
    let mut text = String::from_str(base);
    if i > 0 {
        push_decimal(&mut text, i);
    }
    Ident::from_py(text.as_str())
}

/// Picks the name for a generated member called `base` in a scope that
/// defines `names`: `base` where it is free, else `base` with the smallest
/// numeral behind it that makes it free.
pub fn fresh_name(base: &str, names: &Vec<Ident>) -> (id: Ident)
    requires
        names.len() < usize::MAX,
    ensures
        id@ == fresh(views(names@), base@),
{
    let mut i: usize = 0;
    loop
        invariant
            i <= names.len() < usize::MAX,
            fresh_index(views(names@), base@, 0) == fresh_index(views(names@), base@, i as nat),
        decreases names.len() - i,
    {
        let id = candidate_name(base, i);
        if !is_taken(names, &id) {
            return id;
        }
        if i == names.len() {
            assert(fresh_index(views(names@), base@, (i + 1) as nat) == i + 1);
            return candidate_name(base, i + 1);
        }
        i += 1;
    }
}

/// Before the number that is picked, every candidate is taken.
pub proof fn lemma_fresh_index_skips_taken(names: Seq<Seq<char>>, base: Seq<char>, i: nat, j: nat)
    requires
        i <= j < fresh_index(names, base, i),
    ensures
        taken(names, candidate(base, j)),
    decreases names.len() + 1 - i,
{
    if i > names.len() || !taken(names, candidate(base, i)) {
    } else if i < j {
        lemma_fresh_index_skips_taken(names, base, i + 1, j);
    }
}

/// The search stops at the first candidate that is free: where the
/// candidates before number `n` are all taken and number `n` is free, and `n`
/// is within the bound of the search, number `n` is picked.
pub proof fn lemma_fresh_index_first_free(names: Seq<Seq<char>>, base: Seq<char>, i: nat, n: nat)
    requires
        i <= n <= names.len(),
        forall|j: nat| i <= j < n ==> taken(names, #[trigger] candidate(base, j)),
        !taken(names, candidate(base, n)),
    ensures
        fresh_index(names, base, i) == n,
    decreases n - i,
{
    if i < n {
        assert(taken(names, candidate(base, i)));
        lemma_fresh_index_first_free(names, base, i + 1, n);
    }
}

/// In a scope that already defines `base` and `base1` and does not define
/// `base2`, the generated member is called `base2`.
pub proof fn lemma_fresh_after_two(names: Seq<Seq<char>>, base: Seq<char>)
    requires
        taken(names, candidate(base, 0)),
        taken(names, candidate(base, 1)),
        !taken(names, candidate(base, 2)),
        !forbidden_function_name(py_form(candidate(base, 0))),
        !forbidden_function_name(py_form(candidate(base, 1))),
        !same_ident(candidate(base, 0), candidate(base, 1)),
    ensures
        fresh(names, base) == candidate(base, 2),
{
    let a = choose|k: int|
        0 <= k < names.len() && same_ident(#[trigger] names[k], candidate(base, 0));
    let b = choose|k: int|
        0 <= k < names.len() && same_ident(#[trigger] names[k], candidate(base, 1));
    assert(a != b);
    assert(names.len() >= 2);
    assert forall|j: nat| 0 <= j < 2 implies taken(names, #[trigger] candidate(base, j)) by {
        if j == 0 {
        } else {
            assert(j == 1);
        }
    }
    lemma_fresh_index_first_free(names, base, 0, 2);
}

} // verus!
