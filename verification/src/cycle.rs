//! Cyclic cursor arithmetic shared by the section menu, the mode list and
//! the two proxy cursors: a cursor over a list of `n` items advances and
//! retreats modulo `n`, and is pinned to `0` when the list is empty.

use vstd::prelude::*;

verus! {

/// Where a cursor at `i` over `n` items lands after one step forward.
pub open spec fn cycle_next(i: nat, n: nat) -> nat {
    if n == 0 {
        0
    } else {
        ((i as int + 1) % (n as int)) as nat
    }
}

/// Where a cursor at `i` over `n` items lands after one step back.
pub open spec fn cycle_previous(i: nat, n: nat) -> nat {
    if n == 0 {
        0
    } else {
        ((i as int + n as int - 1) % (n as int)) as nat
    }
}

/// Where a cursor at `i` over `n` items lands after `k` steps forward.
pub open spec fn cycle_next_many(i: nat, n: nat, k: nat) -> nat
    decreases k,
{
    if k == 0 {
        i
    } else {
        cycle_next(cycle_next_many(i, n, (k - 1) as nat), n)
    }
}

/// Where a cursor at `i` over `n` items lands after `k` steps back.
pub open spec fn cycle_previous_many(i: nat, n: nat, k: nat) -> nat
    decreases k,
{
    if k == 0 {
        i
    } else {
        cycle_previous(cycle_previous_many(i, n, (k - 1) as nat), n)
    }
}

/// A cursor step keeps the cursor inside the list, and at `0` when the list
/// is empty.
pub proof fn lemma_cycle_in_bounds(i: nat, n: nat)
    ensures
        n == 0 ==> cycle_next(i, n) == 0 && cycle_previous(i, n) == 0,
        n > 0 ==> cycle_next(i, n) < n && cycle_previous(i, n) < n,
{
}

proof fn lemma_cycle_next_many_mod(i: nat, n: nat, k: nat)
    requires
        n > 0,
        i < n,
    ensures
        cycle_next_many(i, n, k) == ((i + k) as int) % (n as int),
    decreases k,
{
    if k == 0 {
        assert((i as int) % (n as int) == i as int) by (nonlinear_arith)
            requires 0 <= i < n;
    } else {
        lemma_cycle_next_many_mod(i, n, (k - 1) as nat);
        let prev: int = (i as int + k as int - 1) % (n as int);
        assert((prev + 1) % (n as int) == (i as int + k as int) % (n as int)) by (nonlinear_arith)
            requires n > 0 && prev == (i as int + k as int - 1) % (n as int);
    }
}

proof fn lemma_cycle_previous_many_mod(i: nat, n: nat, k: nat)
    requires
        n > 0,
        i < n,
    ensures
        cycle_previous_many(i, n, k) == (i as int + k as int * (n as int - 1)) % (n as int),
    decreases k,
{
    if k == 0 {
        assert((i as int) % (n as int) == i as int) by (nonlinear_arith)
            requires 0 <= i < n;
    } else {
        lemma_cycle_previous_many_mod(i, n, (k - 1) as nat);
        let prev: int = (i as int + (k as int - 1) * (n as int - 1)) % (n as int);
        assert((prev + n as int - 1) % (n as int) == (i as int + k as int * (n as int - 1)) % (n as int)) by (nonlinear_arith)
            requires n > 0 && prev == (i as int + (k as int - 1) * (n as int - 1)) % (n as int);
    }
}

/// Stepping a cursor forward once around a list of `n` items, that is `n`
/// times, returns it to where it started; the same holds for stepping back.
pub proof fn lemma_cycle_wraparound(i: nat, n: nat)
    requires
        i < n,
    ensures
        cycle_next_many(i, n, n) == i,
        cycle_previous_many(i, n, n) == i,
{
    lemma_cycle_next_many_mod(i, n, n);
    assert((i as int + n as int) % (n as int) == i as int) by (nonlinear_arith)
        requires 0 <= i < n;
    lemma_cycle_previous_many_mod(i, n, n);
    assert((i as int + n as int * (n as int - 1)) % (n as int) == i as int) by (nonlinear_arith)
        requires 0 <= i < n;
}

} // verus!
