//! Request ids: every call that leaves a transport carries one.
use vstd::prelude::*;

use crate::RequestId;

verus! {

/// How many different request ids there are.
pub open spec fn id_space() -> int {
    usize::MAX + 1
}

/// The id that a counter that starts at `first` hands out after `taken` others.
pub open spec fn nth_id(first: RequestId, taken: nat) -> int {
    (first + taken) % id_space()
}

/// Hands out request ids, each one above the last, starting again at zero behind the largest.
#[derive(Debug)]
pub struct RequestIds {
    next: RequestId,
}

impl RequestIds {
    /// The id that is handed out next.
    pub closed spec fn upcoming(&self) -> RequestId {
        self.next
    }

    /// A counter whose first id is `first`.
    pub fn starting_at(first: RequestId) -> (ids: RequestIds)
        ensures
            ids.upcoming() == first,
    {
        RequestIds { next: first }
    }

    /// Takes the next id.
    pub fn next_id(&mut self) -> (id: RequestId)
        ensures
            id == old(self).upcoming(),
            final(self).upcoming() == nth_id(id, 1),
    {
        let id: RequestId = self.next;
        self.next = id.wrapping_add(1);
        proof {
            lemma_second_id(id);
        }
        id
    }
}

/// The id behind an id is one above it, and behind the largest comes zero.
pub proof fn lemma_second_id(first: RequestId)
    ensures
        nth_id(first, 1) == if first == usize::MAX {
            0
        } else {
            first + 1
        },
{
    let n = id_space();
    if first == usize::MAX {
        vstd::arithmetic::div_mod::lemma_mod_self_0(n);
    } else {
        vstd::arithmetic::div_mod::lemma_small_mod((first + 1) as nat, n as nat);
    }
}

/// Taking one id and then `taken` more is taking `taken + 1` ids.
pub proof fn ids_follow_each_other(first: RequestId, taken: nat)
    ensures
        nth_id(nth_id(first, 1) as RequestId, taken) == nth_id(first, taken + 1),
{
    let n = id_space();
    lemma_second_id(first);
    if first == usize::MAX {
        vstd::arithmetic::div_mod::lemma_mod_add_multiples_vanish(taken as int, n);
        assert(first + (taken + 1) == n + taken);
    }
}

/// No id comes twice before all of them have been handed out: two ids taken from one counter,
/// fewer than `id_space()` steps apart, differ.
pub proof fn ids_are_unique(first: RequestId, i: nat, j: nat)
    requires
        i < j,
        j - i < id_space(),
    ensures
        nth_id(first, i) != nth_id(first, j),
{
    let n = id_space();
    let a = first + i;
    let b = first + j;
    if a % n == b % n {
        vstd::arithmetic::div_mod::lemma_fundamental_div_mod(a, n);
        vstd::arithmetic::div_mod::lemma_fundamental_div_mod(b, n);
        let q = b / n - a / n;
        assert(b - a == n * q) by (nonlinear_arith)
            requires
                a == n * (a / n) + a % n,
                b == n * (b / n) + b % n,
                a % n == b % n,
                q == b / n - a / n,
        ;
        assert(false) by (nonlinear_arith)
            requires
                0 < n * q < n,
                n > 0,
        ;
    }
}

} // verus!
