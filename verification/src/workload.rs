//! Sharing the passes of a render among parallel workers.

use vstd::arithmetic::div_mod::lemma_fundamental_div_mod;
use vstd::prelude::*;

verus! {

/// The passes of worker `index` when `total` passes are shared among
/// `workers` as evenly as possible: everyone gets the rounded-down quotient,
/// and the first `total % workers` get one more.
pub open spec fn share(total: int, workers: int, index: int) -> int {
    total / workers + if index < total % workers {
        1int
    } else {
        0int
    }
}

/// The number of workers that get anything to do.
pub open spec fn busy_workers(total: int, workers: int) -> int {
    if workers < total {
        workers
    } else {
        total
    }
}

/// The sum of a list of shares.
pub open spec fn sum_of(shares: Seq<u32>) -> int
    decreases shares.len(),
{
    if shares.len() == 0 {
        0
    } else {
        sum_of(shares.drop_last()) + shares.last()
    }
}

/// One more worker adds one more quotient.
proof fn lemma_one_more_quotient(quotient: int, count: int)
    by (nonlinear_arith)
    ensures
        (count + 1) * quotient == count * quotient + quotient,
{
}

/// A share that is topped up still fits the machine word.
proof fn lemma_share_fits(total: int, workers: int)
    by (nonlinear_arith)
    requires
        0 <= total <= u32::MAX,
        workers >= 2,
        total == workers * (total / workers) + total % workers,
        0 <= total % workers,
    ensures
        total / workers < u32::MAX,
        0 <= total / workers,
{
}

/// Shares `total` passes among `workers` workers. The result lists the share
/// of every worker that has something to do, in order; with no workers it is
/// empty. The shares differ by at most one and add up to `total`.
pub fn split_samples(total: u32, workers: u32) -> (shares: Vec<u32>)
    ensures
        shares@.len() == busy_workers(total as int, workers as int),
        forall|i: int|
            0 <= i < shares@.len() ==> #[trigger] shares@[i] == share(
                total as int,
                workers as int,
                i,
            ),
        forall|i: int| 0 <= i < shares@.len() ==> #[trigger] shares@[i] > 0,
        forall|i: int, j: int|
            0 <= i < shares@.len() && 0 <= j < shares@.len() ==> #[trigger] shares@[i]
                - #[trigger] shares@[j] <= 1,
        workers > 0 ==> sum_of(shares@) == total,
{
    let mut shares: Vec<u32> = Vec::new();
    if workers == 0 {
        return shares;
    }
    let quotient: u32 = total / workers;
    let rest: u32 = total % workers;
    let busy: u32 = if workers < total {
        workers
    } else {
        total
    };
    proof {
        lemma_fundamental_div_mod(total as int, workers as int);
        if workers >= 2 {
            lemma_share_fits(total as int, workers as int);
        }
        if workers < total {
            assert(quotient >= 1) by (nonlinear_arith)
                requires
                    total == workers * quotient + rest,
                    rest < workers,
                    workers < total,
                    0 < workers,
            ;
        } else if workers > total {
            assert(quotient == 0) by (nonlinear_arith)
                requires
                    total == workers * quotient + rest,
                    workers > total,
                    0 <= rest,
                    0 <= quotient,
            ;
        } else {
            assert(quotient == 1 && rest == 0) by (nonlinear_arith)
                requires
                    total == workers * quotient + rest,
                    workers == total,
                    0 <= rest < workers,
                    0 <= quotient,
            ;
        }
        assert(busy * quotient + (if busy < rest {
            busy as int
        } else {
            rest as int
        }) == total) by (nonlinear_arith)
            requires
                total == workers * quotient + rest,
                rest < workers,
                busy == (if workers < total {
                    workers
                } else {
                    total
                }),
                workers >= total ==> (quotient == 0 || (quotient == 1 && rest == 0)),
        ;
    }
    let mut index: u32 = 0;
    while index < busy
        invariant
            index <= busy,
            busy == busy_workers(total as int, workers as int),
            workers > 0,
            quotient == total as int / workers as int,
            rest == total as int % workers as int,
            rest > 0 ==> quotient < u32::MAX,
            workers < total ==> quotient >= 1,
            workers >= total ==> busy <= rest || quotient >= 1,
            shares@.len() == index,
            forall|i: int|
                0 <= i < index ==> #[trigger] shares@[i] == share(total as int, workers as int, i),
            forall|i: int| 0 <= i < index ==> #[trigger] shares@[i] > 0,
            sum_of(shares@) == index * quotient + (if index < rest {
                index as int
            } else {
                rest as int
            }),
        decreases busy - index,
    {
        let part: u32 = if index < rest {
            quotient + 1
        } else {
            quotient
        };
        proof {
            lemma_one_more_quotient(quotient as int, index as int);
            assert(shares@.push(part).drop_last() =~= shares@);
        }
        shares.push(part);
        index += 1;
    }
    shares
}

} // verus!
