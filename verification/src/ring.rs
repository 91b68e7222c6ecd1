//! Moving a cursor round a list.

use vstd::prelude::*;

verus! {

/// One position back, from the first to the last.
pub open spec fn back(at: int, n: int) -> int {
    (at + n - 1) % n
}

/// One position on, from the last to the first.
pub open spec fn on(at: int, n: int) -> int {
    (at + 1) % n
}

/// A step back or on.
pub open spec fn stepped(at: int, n: int, up: bool) -> int {
    if up {
        back(at, n)
    } else {
        on(at, n)
    }
}

proof fn remainder_of_sum(at: int, d: int, n: int)
    requires
        n > 0,
        0 <= at,
    ensures
        (at + d) % n == (at % n + d) % n,
{
    vstd::arithmetic::div_mod::lemma_add_mod_noop(at, d, n);
    vstd::arithmetic::div_mod::lemma_add_mod_noop(at % n, d, n);
    vstd::arithmetic::div_mod::lemma_mod_twice(at, n);
}

/// One position back or on in a list of `n` entries.
pub fn step(at: usize, n: usize, up: bool) -> (r: usize)
    requires
        n > 0,
    ensures
        r == stepped(at as int, n as int, up),
        r < n,
{
    let m: usize = at % n;
    proof {
        remainder_of_sum(at as int, n - 1, n as int);
        remainder_of_sum(at as int, 1, n as int);
    }
    if up {
        if m == 0 {
            assert((m + n - 1) % (n as int) == n - 1) by {
                vstd::arithmetic::div_mod::lemma_small_mod((n - 1) as nat, n as nat);
            }
            n - 1
        } else {
            assert((m + (n - 1)) % (n as int) == m - 1) by {
                vstd::arithmetic::div_mod::lemma_mod_add_multiples_vanish(m - 1, n as int);
                vstd::arithmetic::div_mod::lemma_small_mod((m - 1) as nat, n as nat);
            }
            m - 1
        }
    } else {
        if m == n - 1 {
            assert((m + 1) % (n as int) == 0) by {
                vstd::arithmetic::div_mod::lemma_mod_self_0(n as int);
            }
            0
        } else {
            assert((m + 1) % (n as int) == m + 1) by {
                vstd::arithmetic::div_mod::lemma_small_mod((m + 1) as nat, n as nat);
            }
            m + 1
        }
    }
}

/// A step on undoes a step back, and the other way round.
pub proof fn steps_undo_each_other(at: int, n: int)
    requires
        0 <= at < n,
    ensures
        on(back(at, n), n) == at,
        back(on(at, n), n) == at,
{
    if at == 0 {
        vstd::arithmetic::div_mod::lemma_small_mod((n - 1) as nat, n as nat);
        vstd::arithmetic::div_mod::lemma_mod_self_0(n);
    } else {
        vstd::arithmetic::div_mod::lemma_mod_add_multiples_vanish(at - 1, n);
        vstd::arithmetic::div_mod::lemma_small_mod((at - 1) as nat, n as nat);
        vstd::arithmetic::div_mod::lemma_small_mod(at as nat, n as nat);
    }
    if at == n - 1 {
        vstd::arithmetic::div_mod::lemma_mod_self_0(n);
        vstd::arithmetic::div_mod::lemma_small_mod((n - 1) as nat, n as nat);
    } else {
        vstd::arithmetic::div_mod::lemma_small_mod((at + 1) as nat, n as nat);
        vstd::arithmetic::div_mod::lemma_mod_add_multiples_vanish(at, n);
        vstd::arithmetic::div_mod::lemma_small_mod(at as nat, n as nat);
    }
}

} // verus!
