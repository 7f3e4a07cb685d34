//! The simple moving average of a price series.
use vstd::prelude::*;
use crate::crypto_client::{ParsedDataHistory, ParsedHistory};
use crate::fixed::{Ratio, SCALE};
use crate::series::IndicatorError;

verus! {

broadcast use vstd::seq_lib::group_to_multiset_ensures;

/// Sum of the prices of `h`, in units.
pub open spec fn price_sum(h: Seq<ParsedHistory>) -> int
    decreases h.len(),
{
    if h.len() == 0 {
        0
    } else {
        price_sum(h.drop_last()) + h.last().price.units
    }
}

/// What `simple_moving_average` returns for the series `h`: the mean price,
/// `price_sum / len`, in whole units.
pub open spec fn sma_outcome(h: Seq<ParsedHistory>) -> Result<Ratio, IndicatorError> {
    if h.len() == 0 {
        Err(IndicatorError::InsufficientData)
    } else {
        Ok(Ratio { num: price_sum(h) as i128, den: (h.len() * SCALE) as i128 })
    }
}

proof fn lemma_price_sum_bounds(h: Seq<ParsedHistory>)
    ensures
        h.len() * i64::MIN <= price_sum(h) <= h.len() * i64::MAX,
    decreases h.len(),
{
    if h.len() > 0 {
        lemma_price_sum_bounds(h.drop_last());
    }
}

/// The arithmetic mean of every price of the series. An empty series has no
/// mean and fails with `InsufficientData`.
pub fn simple_moving_average(data: &ParsedDataHistory) -> (r: Result<Ratio, IndicatorError>)
    ensures
        r == sma_outcome(data.history@),
{
    let h = &data.history;
    let n = h.len();
    if n == 0 {
        return Err(IndicatorError::InsufficientData);
    }
    let mut sum: i128 = 0;
    let mut i: usize = 0;
    while i < n
        invariant
            n == h.len(),
            i <= n,
            sum == price_sum(h@.take(i as int)),
        decreases n - i,
    {
        assert(h@.take(i + 1).drop_last() =~= h@.take(i as int));
        proof {
            lemma_price_sum_bounds(h@.take(i + 1));
        }
        sum = sum + h[i].price.units as i128;
        i = i + 1;
    }
    assert(h@.take(n as int) =~= h@);
    Ok(Ratio { num: sum, den: n as i128 * SCALE as i128 })
}

/// Taking out the point at `i` takes its price out of the sum.
proof fn lemma_price_sum_remove(h: Seq<ParsedHistory>, i: int)
    requires
        0 <= i < h.len(),
    ensures
        price_sum(h) == price_sum(h.remove(i)) + h[i].price.units,
    decreases h.len(),
{
    if i == h.len() - 1 {
        assert(h.remove(i) =~= h.drop_last());
    } else {
        lemma_price_sum_remove(h.drop_last(), i);
        assert(h.remove(i).drop_last() =~= h.drop_last().remove(i));
        assert(h.remove(i).last() == h.last());
    }
}

/// The sum of the prices does not depend on their order.
proof fn lemma_price_sum_permutation(a: Seq<ParsedHistory>, b: Seq<ParsedHistory>)
    requires
        a.to_multiset() == b.to_multiset(),
    ensures
        price_sum(a) == price_sum(b),
    decreases a.len(),
{
    if a.len() == 0 {
        assert(b.to_multiset().len() == 0);
    } else {
        let x = a.last();
        let rest = a.drop_last();
        assert(rest.push(x) =~= a);
        assert(a.to_multiset().count(x) > 0);
        assert(b.contains(x));
        let k = choose|k: int| 0 <= k < b.len() && b[k] == x;
        assert(b.remove(k).to_multiset() == b.to_multiset().remove(x));
        assert(rest.to_multiset() =~= a.to_multiset().remove(x));
        lemma_price_sum_permutation(rest, b.remove(k));
        lemma_price_sum_remove(b, k);
    }
}

/// The simple moving average does not depend on the order of the series:
/// any permutation of it has the same average.
pub proof fn lemma_sma_order_independent(a: Seq<ParsedHistory>, b: Seq<ParsedHistory>)
    requires
        a.to_multiset() == b.to_multiset(),
    ensures
        sma_outcome(a) == sma_outcome(b),
{
    lemma_price_sum_permutation(a, b);
    vstd::seq_lib::to_multiset_len(a);
    vstd::seq_lib::to_multiset_len(b);
}

} // verus!
