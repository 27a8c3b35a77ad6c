//! The coin puzzle: five coins are to be put into the five places of
//! `_ + _ * _^2 + _^3 - _ = 399`. Arrangements are numbered, and each number is
//! decoded into the five coins that stand in the five places.

use vstd::prelude::*;
use vstd::string::*;

verus! {

/// The number that `target` has to come out at.
pub const TARGET: usize = 399;

/// What is left of the arrangement number `n` when place `i` is decoded: `n`
/// itself for the first place, and for each later place the previous rest
/// divided by the number of choices that the place before it had.
pub open spec fn rest_at(n: nat, i: int) -> int
    decreases i,
{
    if i <= 0 {
        n as int
    } else {
        rest_at(n, i - 1) / (6 - i)
    }
}

/// The raw choice for place `i`, out of `5 - i` choices.
pub open spec fn choice_at(n: nat, i: int) -> int {
    rest_at(n, i) % (5 - i)
}

/// The raw choice `choice` after it was held against the places before it,
/// in their order: each of them that is not above it moves it up by one.
pub open spec fn raised(before: Seq<int>, choice: int) -> int
    decreases before.len(),
{
    if before.len() == 0 {
        choice
    } else {
        raised(
            before.skip(1),
            if before[0] <= choice {
                choice + 1
            } else {
                choice
            },
        )
    }
}

/// The coins in the first `k` places of arrangement `n`.
pub open spec fn arrangement_prefix(n: nat, k: int) -> Seq<int>
    decreases k,
{
    if k <= 0 {
        Seq::empty()
    } else {
        let before = arrangement_prefix(n, k - 1);
        before.push(raised(before, choice_at(n, k - 1)))
    }
}

/// The coins in the five places of arrangement `n`, each given by its index.
pub open spec fn arrangement_of(n: nat) -> Seq<int> {
    arrangement_prefix(n, 5)
}

/// The value of the left side of the equation with the coins `at` in its places.
pub open spec fn equation_value(values: Seq<usize>, at: Seq<int>) -> int {
    values[at[0]] + values[at[1]] * (values[at[2]] * values[at[2]]) + values[at[3]] * values[at[3]]
        * values[at[3]] - values[at[4]]
}

/// Whether the left side can be computed in machine words: no power, product
/// or sum in it exceeds `usize::MAX`, and the difference is not negative.
pub open spec fn equation_fits(values: Seq<usize>, at: Seq<int>) -> bool {
    let a = values[at[0]];
    let b = values[at[1]];
    let c = values[at[2]];
    let d = values[at[3]];
    let e = values[at[4]];
    &&& c * c <= usize::MAX
    &&& b * (c * c) <= usize::MAX
    &&& d * d <= usize::MAX
    &&& d * d * d <= usize::MAX
    &&& a + b * (c * c) <= usize::MAX
    &&& a + b * (c * c) + d * d * d <= usize::MAX
    &&& a + b * (c * c) + d * d * d >= e
}

/// The name of the coin with the given index, with a blank behind it.
pub open spec fn coin_name(index: int) -> Seq<char> {
    if index == 0 {
        "red "@
    } else if index == 1 {
        "corroded "@
    } else if index == 2 {
        "shiny "@
    } else if index == 3 {
        "concave "@
    } else if index == 4 {
        "blue "@
    } else {
        ""@
    }
}

/// The names of the coins in the first `k` places.
pub open spec fn names_prefix(at: Seq<int>, k: int) -> Seq<char>
    decreases k,
{
    if k <= 0 {
        Seq::empty()
    } else {
        names_prefix(at, k - 1) + coin_name(at[k - 1])
    }
}

/// The names of the coins of an arrangement, in the order of the places.
pub open spec fn names_line(at: Seq<int>) -> Seq<char> {
    names_prefix(at, 5)
}

/// Holding a choice against `before` moves it up by at most one for each place.
pub proof fn lemma_raised_bounds(before: Seq<int>, choice: int)
    ensures
        choice <= raised(before, choice) <= choice + before.len(),
    decreases before.len(),
{
    if before.len() > 0 {
        lemma_raised_bounds(
            before.skip(1),
            if before[0] <= choice {
                choice + 1
            } else {
                choice
            },
        );
    }
}

/// The rest of an arrangement number is never negative, and the raw choice
/// for place `i` is one of `5 - i`.
pub proof fn lemma_choice_bounds(n: nat, i: int)
    requires
        0 <= i <= 4,
    ensures
        0 <= rest_at(n, i),
        0 <= choice_at(n, i) < 5 - i,
    decreases i,
{
    if i > 0 {
        lemma_choice_bounds(n, i - 1);
        let previous = rest_at(n, i - 1);
        let choices = 6 - i;
        assert(0 <= previous / choices) by (nonlinear_arith)
            requires
                0 <= previous,
                0 < choices,
        ;
    }
    let rest = rest_at(n, i);
    let choices = 5 - i;
    assert(0 <= rest % choices < choices) by (nonlinear_arith)
        requires
            0 < choices,
    ;
}

/// The first `k` places of an arrangement hold `k` indices, each from 0 to 4.
pub proof fn lemma_prefix_in_range(n: nat, k: int)
    requires
        0 <= k <= 5,
    ensures
        arrangement_prefix(n, k).len() == k,
        forall|i: int| 0 <= i < k ==> 0 <= #[trigger] arrangement_prefix(n, k)[i] < 5,
    decreases k,
{
    if k > 0 {
        lemma_prefix_in_range(n, k - 1);
        lemma_choice_bounds(n, k - 1);
        lemma_raised_bounds(arrangement_prefix(n, k - 1), choice_at(n, k - 1));
    }
}

/// Every arrangement holds five indices, each from 0 to 4.
pub proof fn lemma_arrangement_in_range(n: nat)
    ensures
        arrangement_of(n).len() == 5,
        forall|i: int| 0 <= i < 5 ==> 0 <= #[trigger] arrangement_of(n)[i] < 5,
{
    lemma_prefix_in_range(n, 5);
}

/// Decodes the arrangement number `n` into the indices of the five coins.
pub fn arrangement(n: usize) -> (pos: Vec<usize>)
    ensures
        pos@.len() == 5,
        forall|i: int| 0 <= i < 5 ==> pos@[i] == arrangement_of(n as nat)[i],
        forall|i: int| 0 <= i < 5 ==> pos@[i] < 5,
{
    let mut pos: Vec<usize> = Vec::new();
    pos.push(n % 5);
    let mut rest: usize = n;
    let ghost mut done: Seq<int> = arrangement_prefix(n as nat, 1);
    proof {
        assert(arrangement_prefix(n as nat, 0) =~= Seq::<int>::empty());
        assert(raised(Seq::<int>::empty(), choice_at(n as nat, 0)) == choice_at(n as nat, 0));
        assert(done =~= seq![(n % 5) as int]);
    }
    let mut i: usize = 1;
    while i < 5
        invariant
            1 <= i <= 5,
            rest == rest_at(n as nat, i - 1),
            pos@.len() == i,
            done == arrangement_prefix(n as nat, i as int),
            done.len() == i,
            forall|k: int| 0 <= k < i ==> pos@[k] == done[k],
        decreases 5 - i,
    {
        rest = rest / (5 - i + 1);
        let mut index: usize = rest % (5 - i);
        proof {
            lemma_choice_bounds(n as nat, i as int);
            assert(rest == rest_at(n as nat, i as int));
            assert(index == choice_at(n as nat, i as int));
            assert(done.skip(0) =~= done);
        }
        let mut j: usize = 0;
        while j < i
            invariant
                j <= i,
                i < 5,
                pos@.len() == i,
                done.len() == i,
                forall|k: int| 0 <= k < i ==> pos@[k] == done[k],
                index <= 4 - i + j,
                raised(done, choice_at(n as nat, i as int)) == raised(done.skip(j as int), index as int),
            decreases i - j,
        {
            proof {
                assert(done.skip(j as int).skip(1) =~= done.skip(j + 1));
                assert(done.skip(j as int)[0] == done[j as int]);
            }
            if pos[j] <= index {
                index += 1;
            }
            j += 1;
        }
        proof {
            assert(done.skip(i as int).len() == 0);
            done = done.push(index as int);
            assert(done == arrangement_prefix(n as nat, i + 1));
        }
        pos.push(index);
        i += 1;
    }
    proof {
        lemma_arrangement_in_range(n as nat);
        assert forall|i: int| 0 <= i < 5 implies pos@[i] < 5 by {
            assert(pos@[i] == arrangement_of(n as nat)[i]);
        }
    }
    pos
}

/// The name of the coin with the given index, with a blank behind it.
pub fn name_of(index: usize) -> (name: &'static str)
    ensures
        name@ == coin_name(index as int),
{
    if index == 0 {
        "red "
    } else if index == 1 {
        "corroded "
    } else if index == 2 {
        "shiny "
    } else if index == 3 {
        "concave "
    } else if index == 4 {
        "blue "
    } else {
        ""
    }
}

/// Whether the equation can be computed for arrangement `n` of `values`:
/// there are five values at least, and nothing in the computation overflows
/// or goes below zero.
pub fn equation_in_bounds(values: &[usize], n: usize) -> (ok: bool)
    ensures
        ok == (values@.len() >= 5 && equation_fits(values@, arrangement_of(n as nat))),
{
    if values.len() < 5 {
        return false;
    }
    let pos = arrangement(n);
    let a: usize = values[pos[0]];
    let b: usize = values[pos[1]];
    let c: usize = values[pos[2]];
    let d: usize = values[pos[3]];
    let e: usize = values[pos[4]];
    let square = match c.checked_mul(c) {
        Some(x) => x,
        None => {
            return false;
        },
    };
    let product = match b.checked_mul(square) {
        Some(x) => x,
        None => {
            return false;
        },
    };
    let d_square = match d.checked_mul(d) {
        Some(x) => x,
        None => {
            return false;
        },
    };
    let cube = match d_square.checked_mul(d) {
        Some(x) => x,
        None => {
            return false;
        },
    };
    let first = match a.checked_add(product) {
        Some(x) => x,
        None => {
            return false;
        },
    };
    let left = match first.checked_add(cube) {
        Some(x) => x,
        None => {
            return false;
        },
    };
    left >= e
}

/// The line that names the coins of arrangement `n`, where that arrangement
/// solves the equation, and nothing where it does not.
pub fn solution_line(values: &[usize], n: usize) -> (line: Option<String>)
    requires
        values@.len() >= 5,
        equation_fits(values@, arrangement_of(n as nat)),
    ensures
        line is Some <==> equation_value(values@, arrangement_of(n as nat)) == 399,
        line is Some ==> line->Some_0@ == names_line(arrangement_of(n as nat)),
{
    let pos = arrangement(n);
    let ghost at = arrangement_of(n as nat);
    let a: usize = values[pos[0]];
    let b: usize = values[pos[1]];
    let c: usize = values[pos[2]];
    let d: usize = values[pos[3]];
    let e: usize = values[pos[4]];
    let left: usize = a + b * (c * c) + d * d * d;
    if TARGET != left - e {
        return None;
    }
    let mut out: String = String::new();
    let mut k: usize = 0;
    while k < 5
        invariant
            k <= 5,
            pos@.len() == 5,
            forall|i: int| 0 <= i < 5 ==> pos@[i] == at[i],
            out@ == names_prefix(at, k as int),
        decreases 5 - k,
    {
        out.append(name_of(pos[k]));
        k += 1;
    }
    Some(out)
}

} // verus!
