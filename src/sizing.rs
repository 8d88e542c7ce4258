//! The per-record size estimate: it starts at a hint and grows to the
//! smallest power of two that holds the largest record seen.

use vstd::arithmetic::power2::is_pow2;
use vstd::prelude::*;

verus! {

/// The smallest power of two that is at least `n`.
pub open spec fn next_pow2(n: nat) -> nat
    decreases n,
{
    if n <= 1 {
        1
    } else {
        2 * next_pow2(((n + 1) / 2) as nat)
    }
}

/// The largest length among `records` (zero when there are none).
pub open spec fn max_len(records: Seq<Seq<u8>>) -> nat
    decreases records.len(),
{
    if records.len() == 0 {
        0
    } else {
        let m = max_len(records.drop_last());
        if records.last().len() > m {
            records.last().len()
        } else {
            m
        }
    }
}

/// The estimate after records whose largest length is `largest`, starting
/// from `hint`: the hint until a record outgrows it, then the smallest power
/// of two that holds the largest record.
pub open spec fn estimate_for(hint: nat, largest: nat) -> nat {
    if largest <= hint {
        hint
    } else {
        next_pow2(largest)
    }
}

/// Doubling a power of two gives a power of two.
pub proof fn lemma_double_pow2(p: int)
    requires
        is_pow2(p),
    ensures
        is_pow2(2 * p),
{
    reveal(is_pow2);
    assert((2 * p) / 2 == p);
}

/// A power of two below another is at most half of it.
pub proof fn lemma_pow2_gap(q: int, p: int)
    requires
        is_pow2(q),
        is_pow2(p),
        q < p,
    ensures
        2 * q <= p,
    decreases p,
{
    reveal(is_pow2);
    if q != 1 {
        lemma_pow2_gap(q / 2, p / 2);
    }
}

/// `next_pow2(n)` is a power of two, at least `n`, and no larger than any
/// other power of two that is at least `n`.
pub proof fn lemma_next_pow2(n: nat)
    ensures
        is_pow2(next_pow2(n) as int),
        n <= next_pow2(n),
        forall|q: int| is_pow2(q) && n <= q ==> next_pow2(n) <= q,
    decreases n,
{
    reveal(is_pow2);
    if n > 1 {
        let h = ((n + 1) / 2) as nat;
        lemma_next_pow2(h);
        lemma_double_pow2(next_pow2(h) as int);
        assert forall|q: int| is_pow2(q) && n <= q implies next_pow2(n) <= q by {
            reveal(is_pow2);
            assert(q != 1);
            assert(is_pow2(q / 2));
            assert(h <= q / 2);
        }
    }
}

/// `next_pow2` does not decrease.
pub proof fn lemma_next_pow2_monotonic(m: nat, n: nat)
    requires
        m <= n,
    ensures
        next_pow2(m) <= next_pow2(n),
{
    lemma_next_pow2(m);
    lemma_next_pow2(n);
}

/// Adding a record to the end raises the largest length to that record's
/// length if it is larger.
pub proof fn lemma_max_len_push(records: Seq<Seq<u8>>, rec: Seq<u8>)
    ensures
        max_len(records.push(rec)) == if rec.len() > max_len(records) {
            rec.len()
        } else {
            max_len(records)
        },
{
    assert(records.push(rec).drop_last() == records);
}

/// The estimate is never below the largest record length.
pub proof fn lemma_estimate_covers(hint: nat, largest: nat)
    ensures
        largest <= estimate_for(hint, largest),
        hint <= estimate_for(hint, largest),
{
    lemma_next_pow2(largest);
}

/// One record of length `len` moves the estimate exactly as the update rule
/// says: to the next power of two of `len` when `len` exceeds it, else not at
/// all.
pub proof fn lemma_estimate_step(hint: nat, largest: nat, len: nat)
    ensures
        estimate_for(hint, if len > largest { len } else { largest }) == if len > estimate_for(
            hint,
            largest,
        ) {
            next_pow2(len)
        } else {
            estimate_for(hint, largest)
        },
{
    lemma_estimate_covers(hint, largest);
    lemma_next_pow2(len);
    lemma_next_pow2(largest);
    if len > largest && len <= estimate_for(hint, largest) && len > hint {
        lemma_next_pow2_monotonic(largest, len);
    }
}

/// The smallest power of two that is at least `n`, for `n` up to
/// `isize::MAX`.
pub fn next_power_of_two(n: usize) -> (p: usize)
    requires
        n <= isize::MAX,
    ensures
        p == next_pow2(n as nat),
{
    proof {
        lemma_next_pow2(n as nat);
        reveal(is_pow2);
    }
    let mut p: usize = 1;
    while p < n
        invariant
            n <= isize::MAX,
            1 <= p,
            is_pow2(p as int),
            p <= next_pow2(n as nat),
            is_pow2(next_pow2(n as nat) as int),
            n <= next_pow2(n as nat),
            forall|q: int| is_pow2(q) && n <= q ==> next_pow2(n as nat) <= q,
        decreases next_pow2(n as nat) - p,
    {
        proof {
            lemma_pow2_gap(p as int, next_pow2(n as nat) as int);
            lemma_double_pow2(p as int);
        }
        p = p * 2;
    }
    p
}

} // verus!
