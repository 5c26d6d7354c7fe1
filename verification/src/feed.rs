//! The feed service's query handling: the score range a cursor-based query
//! covers, and the assembly of the stored batches into one bounded response.

use vstd::prelude::*;
use crate::model::SECONDS_IN_DAY;
use crate::transaction::{Transaction, TransactionDataView};

verus! {

/// Query parameters of a feed request: an optional cursor (only records
/// strictly newer are returned) and an optional cap on how many records come
/// back.
pub struct TransactionsQueryParams {
    pub after: Option<u64>,
    pub limit: Option<usize>,
}

/// The images of a sequence of wire records.
pub open spec fn record_views(s: Seq<Transaction>) -> Seq<TransactionDataView> {
    s.map_values(|t: Transaction| t@)
}

/// The inclusive timestamp range a query covers: everything strictly newer
/// than the cursor, or the whole retention window when there is none.
pub fn query_range(params: &TransactionsQueryParams, now: u64) -> (r: (u64, u64))
    requires
        now >= SECONDS_IN_DAY,
        params.after matches Some(a) ==> a < u64::MAX,
    ensures
        r.1 == now,
        params.after matches Some(a) ==> r.0 == a + 1,
        params.after is None ==> r.0 == now - SECONDS_IN_DAY,
{
    let min = match params.after {
        Some(a) => a + 1,
        None => now - SECONDS_IN_DAY,
    };
    (min, now)
}

/// The stored batches of one score range, joined into a single list in store
/// order.
pub fn flatten_batches(batches: &Vec<Vec<Transaction>>) -> (r: Vec<Transaction>)
    ensures
        record_views(r@) == batches@.map_values(|v: Vec<Transaction>| record_views(v@)).flatten(),
{
    let ghost mapped = batches@.map_values(|v: Vec<Transaction>| record_views(v@));
    let n = batches.len();
    let mut r: Vec<Transaction> = Vec::new();
    let mut i: usize = 0;
    while i < n
        invariant
            n == batches@.len(),
            mapped == batches@.map_values(|v: Vec<Transaction>| record_views(v@)),
            0 <= i <= n,
            record_views(r@) == mapped.subrange(0, i as int).flatten(),
        decreases n - i,
    {
        let batch = &batches[i];
        let m = batch.len();
        let mut j: usize = 0;
        while j < m
            invariant
                n == batches@.len(),
                mapped == batches@.map_values(|v: Vec<Transaction>| record_views(v@)),
                0 <= i < n,
                m == batches@[i as int]@.len(),
                batch == &batches@[i as int],
                0 <= j <= m,
                record_views(r@) == mapped.subrange(0, i as int).flatten() + record_views(
                    batches@[i as int]@.subrange(0, j as int),
                ),
            decreases m - j,
        {
            let ghost prev = r@;
            r.push(batch[j].clone());
            proof {
                assert(record_views(batches@[i as int]@.subrange(0, j + 1)) =~= record_views(
                    batches@[i as int]@.subrange(0, j as int),
                ).push(batches@[i as int]@[j as int]@));
                assert(record_views(r@) =~= record_views(prev).push(
                    batches@[i as int]@[j as int]@,
                ));
            }
            j += 1;
        }
        proof {
            assert(batches@[i as int]@.subrange(0, m as int) =~= batches@[i as int]@);
            assert(mapped.subrange(0, i + 1) =~= mapped.subrange(0, i as int).push(
                mapped[i as int],
            ));
            Seq::lemma_flatten_push(mapped.subrange(0, i as int), mapped[i as int]);
            assert(record_views(r@) =~= mapped.subrange(0, i + 1).flatten());
        }
        i += 1;
    }
    proof {
        assert(mapped.subrange(0, n as int) =~= mapped);
    }
    r
}

/// The response to hand back: the first `limit` records when a limit is
/// given (the store must hold at least that many), everything otherwise.
pub fn apply_limit(transactions: Vec<Transaction>, limit: Option<usize>) -> (r: Vec<Transaction>)
    requires
        limit matches Some(l) ==> l <= transactions@.len(),
    ensures
        limit matches Some(l) ==> record_views(r@) == record_views(transactions@).subrange(
            0,
            l as int,
        ),
        limit is None ==> r == transactions,
{
    match limit {
        None => transactions,
        Some(l) => {
            let mut r: Vec<Transaction> = Vec::new();
            let mut i: usize = 0;
            while i < l
                invariant
                    l <= transactions@.len(),
                    0 <= i <= l,
                    record_views(r@) == record_views(transactions@).subrange(0, i as int),
                decreases l - i,
            {
                let ghost prev = r@;
                r.push(transactions[i].clone());
                proof {
                    assert(record_views(transactions@).subrange(0, i + 1) =~= record_views(
                        transactions@,
                    ).subrange(0, i as int).push(transactions@[i as int]@));
                    assert(record_views(r@) =~= record_views(prev).push(
                        transactions@[i as int]@,
                    ));
                }
                i += 1;
            }
            r
        },
    }
}

} // verus!
