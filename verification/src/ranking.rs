//! The balance view for a searched symbol: who holds any of it, largest
//! holding first.
//!
//! Rows with equal quantities keep the order they have in the balance table.
//! `ranks` states this with the table positions that the output rows came
//! from, which pins the output down row by row.

use vstd::prelude::*;

use crate::ledger::{holding_views, Holding, HoldingView};

verus! {

/// Whether `row` is a holding of `symbol`: a row for exactly that coin with a
/// quantity other than zero.
pub open spec fn holds(row: HoldingView, symbol: Seq<char>) -> bool {
    row.coin_symbol == symbol && row.quantity != 0
}

/// `holds` for a fixed symbol, as a predicate on rows.
pub open spec fn holds_any(symbol: Seq<char>) -> spec_fn(HoldingView) -> bool {
    |row: HoldingView| holds(row, symbol)
}

/// The rows of `table` that are holdings of `symbol`, in table order.
pub open spec fn holders_of(table: Seq<HoldingView>, symbol: Seq<char>) -> Seq<HoldingView> {
    table.filter(holds_any(symbol))
}

/// Whether no row has a larger quantity than a row before it.
pub open spec fn descending(rows: Seq<HoldingView>) -> bool {
    forall|k: int, l: int|
        #![trigger rows[k], rows[l]]
        0 <= k < l < rows.len() ==> rows[k].quantity >= rows[l].quantity
}

/// Whether `out` is `src` rearranged largest quantity first, where `out[k]`
/// is the row `src[from[k]]` and rows of equal quantity stand in the order
/// of their positions in `src`.
pub open spec fn ranks(src: Seq<HoldingView>, out: Seq<HoldingView>, from: Seq<int>) -> bool {
    &&& out.len() == src.len()
    &&& from.len() == src.len()
    &&& forall|k: int|
        0 <= k < out.len() ==> 0 <= #[trigger] from[k] < src.len() && out[k] == src[from[k]]
    &&& forall|k: int, l: int|
        #![trigger out[k], out[l]]
        0 <= k < l < out.len() ==> out[k].quantity > out[l].quantity || (out[k].quantity
            == out[l].quantity && from[k] < from[l])
}

/// Whether `out` is `src` sorted by descending quantity, stably.
pub open spec fn stable_descending(src: Seq<HoldingView>, out: Seq<HoldingView>) -> bool {
    exists|from: Seq<int>| ranks(src, out, from)
}

/// A ranking is in descending order.
pub proof fn lemma_ranks_descending(src: Seq<HoldingView>, out: Seq<HoldingView>, from: Seq<int>)
    requires
        ranks(src, out, from),
    ensures
        descending(out),
{
}

/// A ranking takes every row of its source exactly once: no source position
/// is used twice, and none is left out.
pub proof fn lemma_ranks_permutes(src: Seq<HoldingView>, out: Seq<HoldingView>, from: Seq<int>)
    requires
        ranks(src, out, from),
    ensures
        forall|k: int, l: int|
            #![trigger from[k], from[l]]
            0 <= k < l < from.len() ==> from[k] != from[l],
        out.to_multiset() == src.to_multiset(),
    decreases src.len(),
{
    assert forall|k: int, l: int|
        #![trigger from[k], from[l]]
        0 <= k < l < from.len() implies from[k] != from[l] by {
        if from[k] == from[l] {
            assert(out[k] == out[l]);
        }
    }
    if src.len() == 0 {
        assert(out =~= src);
    } else {
        // The last source row stands somewhere in the output: take it out of
        // both and the rest is a ranking again.
        let n = src.len() - 1;
        let at = lemma_position_used(from, n);
        let rest_src = src.drop_last();
        let rest_out = out.remove(at);
        let rest_from = from.remove(at);
        assert forall|k: int| 0 <= k < rest_out.len() implies 0 <= #[trigger] rest_from[k]
            < rest_src.len() && rest_out[k] == rest_src[rest_from[k]] by {
            let j = if k < at {
                k
            } else {
                k + 1
            };
            assert(rest_from[k] == from[j]);
            assert(rest_out[k] == out[j]);
            if j < at {
                assert(from[j] != from[at]);
            } else {
                assert(from[at] != from[j]);
            }
        }
        assert forall|k: int, l: int|
            #![trigger rest_out[k], rest_out[l]]
            0 <= k < l < rest_out.len() implies rest_out[k].quantity > rest_out[l].quantity || (
        rest_out[k].quantity == rest_out[l].quantity && rest_from[k] < rest_from[l]) by {
            let i = if k < at {
                k
            } else {
                k + 1
            };
            let j = if l < at {
                l
            } else {
                l + 1
            };
            assert(rest_from[k] == from[i]);
            assert(rest_from[l] == from[j]);
            assert(rest_out[k] == out[i]);
            assert(rest_out[l] == out[j]);
        }
        lemma_ranks_permutes(rest_src, rest_out, rest_from);
        assert(out =~= rest_out.insert(at, out[at]));
        assert(src =~= rest_src.push(src[n]));
        vstd::seq_lib::to_multiset_insert(rest_out, at, out[at]);
        vstd::seq_lib::to_multiset_build(rest_src, src[n]);
    }
}

/// A sequence of `from.len()` distinct positions below `from.len()` uses
/// every one of them; the result is where it uses `n`.
proof fn lemma_position_used(from: Seq<int>, n: int) -> (at: int)
    requires
        0 <= n < from.len(),
        forall|k: int| 0 <= k < from.len() ==> 0 <= #[trigger] from[k] < from.len(),
        forall|k: int, l: int|
            #![trigger from[k], from[l]]
            0 <= k < l < from.len() ==> from[k] != from[l],
    ensures
        0 <= at < from.len(),
        from[at] == n,
{
    if !from.contains(n) {
        // Distinct positions that all avoid `n` would be too many for the
        // room that is left.
        let used = from.to_set();
        from.unique_seq_to_set();
        let room = Set::new(|i: int| 0 <= i < from.len() && i != n);
        assert forall|i: int| used.contains(i) implies room.contains(i) by {
            let k = choose|k: int| 0 <= k < from.len() && from[k] == i;
            assert(from[k] == i);
        }
        let whole = Set::new(|i: int| 0 <= i < from.len());
        vstd::set_lib::lemma_int_range(0, from.len() as int);
        assert(whole =~= vstd::set_lib::set_int_range(0, from.len() as int));
        assert(room =~= whole.remove(n));
        vstd::set_lib::lemma_len_subset(used, room);
        assert(false);
    }
    choose|at: int| 0 <= at < from.len() && from[at] == n
}

/// Putting a new last source row into a ranking, behind every row that is at
/// least as large and in front of every smaller one, gives a ranking of the
/// longer source.
proof fn lemma_rank_insert(
    src: Seq<HoldingView>,
    out: Seq<HoldingView>,
    from: Seq<int>,
    row: HoldingView,
    at: int,
)
    requires
        ranks(src, out, from),
        0 <= at <= out.len(),
        forall|k: int| 0 <= k < at ==> (#[trigger] out[k]).quantity >= row.quantity,
        forall|k: int| at <= k < out.len() ==> (#[trigger] out[k]).quantity < row.quantity,
    ensures
        ranks(src.push(row), out.insert(at, row), from.insert(at, src.len() as int)),
{
    let src1 = src.push(row);
    let out1 = out.insert(at, row);
    let from1 = from.insert(at, src.len() as int);
    assert forall|k: int| 0 <= k < out1.len() implies 0 <= #[trigger] from1[k] < src1.len()
        && out1[k] == src1[from1[k]] by {
        if k < at {
            assert(from1[k] == from[k]);
            assert(out1[k] == out[k]);
        } else if k > at {
            assert(from1[k] == from[k - 1]);
            assert(out1[k] == out[k - 1]);
        }
    }
    assert forall|k: int, l: int|
        #![trigger out1[k], out1[l]]
        0 <= k < l < out1.len() implies out1[k].quantity > out1[l].quantity || (out1[k].quantity
        == out1[l].quantity && from1[k] < from1[l]) by {
        let i = if k < at {
            k
        } else {
            k - 1
        };
        let j = if l < at {
            l
        } else {
            l - 1
        };
        if k != at {
            assert(from1[k] == from[i]);
            assert(out1[k] == out[i]);
        }
        if l != at {
            assert(from1[l] == from[j]);
            assert(out1[l] == out[j]);
        }
    }
}

/// The holders of `symbol` among the rows of `table`: every row for exactly
/// that coin whose quantity is not zero, largest quantity first, rows of
/// equal quantity in table order.
pub fn rank_holders(table: &Vec<Holding>, symbol: &String) -> (out: Vec<Holding>)
    ensures
        stable_descending(holders_of(holding_views(table@), symbol@), holding_views(out@)),
        descending(holding_views(out@)),
        holding_views(out@).len() == holders_of(holding_views(table@), symbol@).len(),
        forall|k: int|
            0 <= k < out@.len() ==> holds(#[trigger] holding_views(out@)[k], symbol@),
{
    let ghost all = holding_views(table@);
    let ghost keep = holds_any(symbol@);
    let ghost mut from: Seq<int> = Seq::empty();
    let mut out: Vec<Holding> = Vec::new();
    let mut t: usize = 0;
    proof {
        reveal(Seq::filter);
        assert(all.take(0) =~= Seq::<HoldingView>::empty());
        assert(holding_views(out@) =~= Seq::<HoldingView>::empty());
    }
    while t < table.len()
        invariant
            t <= table@.len(),
            all == holding_views(table@),
            keep == holds_any(symbol@),
            ranks(all.take(t as int).filter(keep), holding_views(out@), from),
        decreases table@.len() - t,
    {
        let ghost src = all.take(t as int).filter(keep);
        let ghost before = holding_views(out@);
        proof {
            assert(all.take(t + 1) =~= all.take(t as int).push(all[t as int]));
            all.take(t as int).lemma_filter_push(all[t as int], keep);
        }
        if table[t].coin_symbol == *symbol && table[t].quantity != 0 {
            let quantity: i128 = table[t].quantity;
            let mut at: usize = 0;
            while at < out.len() && out[at].quantity >= quantity
                invariant
                    at <= out@.len(),
                    before == holding_views(out@),
                    forall|k: int| 0 <= k < at ==> (#[trigger] before[k]).quantity >= quantity,
                decreases out@.len() - at,
            {
                at = at + 1;
            }
            proof {
                assert forall|k: int| at <= k < before.len() implies (#[trigger] before[k]).quantity
                    < quantity by {
                    assert(before[at as int].quantity < quantity);
                }
                lemma_rank_insert(src, before, from, all[t as int], at as int);
                from = from.insert(at as int, src.len() as int);
            }
            out.insert(at, table[t].clone());
            assert(holding_views(out@) =~= before.insert(at as int, all[t as int]));
        }
        t = t + 1;
    }
    proof {
        assert(all.take(t as int) =~= all);
        let src = holders_of(all, symbol@);
        let rows = holding_views(out@);
        lemma_ranks_descending(src, rows, from);
        assert forall|k: int| 0 <= k < out@.len() implies holds(#[trigger] rows[k], symbol@) by {
            all.lemma_filter_pred(keep, from[k]);
        }
    }
    out
}

} // verus!
