//! The view compiler: which trades of the log are visible under a type
//! filter and a committed search symbol.
//!
//! Both predicates compare without regard to case. The type filter folds
//! both sides to lower case; the symbol filter folds the trade's ticker to
//! upper case and compares it with the committed symbol as it stands, since
//! that was folded when it was committed.

use std::collections::VecDeque;
use vstd::prelude::*;

use crate::text::{lowercase_of, uppercase_of};
use crate::trade::{views, Trade, TradeView};

verus! {

/// The text of an optional string.
pub open spec fn text_of(s: Option<String>) -> Option<Seq<char>> {
    match s {
        Some(s) => Some(s@),
        None => None,
    }
}

/// Whether `trade` passes the type filter: any trade where there is none,
/// else one whose channel tag is the filter's up to case.
pub open spec fn passes_type(trade: TradeView, type_filter: Option<Seq<char>>) -> bool {
    match type_filter {
        None => true,
        Some(tag) => lowercase_of(trade.trade_type) == lowercase_of(tag),
    }
}

/// Whether `trade` passes the symbol filter: any trade where no symbol is
/// committed, else one whose ticker, in upper case, is the symbol.
pub open spec fn passes_symbol(trade: TradeView, symbol: Option<Seq<char>>) -> bool {
    match symbol {
        None => true,
        Some(symbol) => uppercase_of(trade.coin_symbol) == symbol,
    }
}

/// The type filter as a predicate on trades.
pub open spec fn type_pass(type_filter: Option<Seq<char>>) -> spec_fn(TradeView) -> bool {
    |trade: TradeView| passes_type(trade, type_filter)
}

/// The symbol filter as a predicate on trades.
pub open spec fn symbol_pass(symbol: Option<Seq<char>>) -> spec_fn(TradeView) -> bool {
    |trade: TradeView| passes_symbol(trade, symbol)
}

/// Both filters at once.
pub open spec fn both_pass(
    type_filter: Option<Seq<char>>,
    symbol: Option<Seq<char>>,
) -> spec_fn(TradeView) -> bool {
    |trade: TradeView| passes_type(trade, type_filter) && passes_symbol(trade, symbol)
}

/// The visible sequence: the log after the type filter and then the symbol
/// filter, in log order.
pub open spec fn visible(
    log: Seq<TradeView>,
    type_filter: Option<Seq<char>>,
    symbol: Option<Seq<char>>,
) -> Seq<TradeView> {
    log.filter(type_pass(type_filter)).filter(symbol_pass(symbol))
}

/// Filtering by one predicate and then by another keeps what a single pass
/// with both would keep.
pub proof fn lemma_filter_twice<A>(
    s: Seq<A>,
    first: spec_fn(A) -> bool,
    second: spec_fn(A) -> bool,
    both: spec_fn(A) -> bool,
)
    requires
        forall|a: A| #[trigger] both(a) == (first(a) && second(a)),
    ensures
        s.filter(first).filter(second) == s.filter(both),
    decreases s.len(),
{
    if s.len() == 0 {
        reveal(Seq::filter);
        assert(s.filter(first) =~= s);
        assert(s.filter(both) =~= s);
    } else {
        let front = s.drop_last();
        let x = s.last();
        assert(s =~= front.push(x));
        lemma_filter_twice(front, first, second, both);
        front.lemma_filter_push(x, first);
        front.lemma_filter_push(x, both);
        if first(x) {
            front.filter(first).lemma_filter_push(x, second);
        }
    }
}

/// The visible sequence is what one pass over the log with both filters
/// keeps.
pub proof fn lemma_visible_one_pass(
    log: Seq<TradeView>,
    type_filter: Option<Seq<char>>,
    symbol: Option<Seq<char>>,
)
    ensures
        visible(log, type_filter, symbol) == log.filter(both_pass(type_filter, symbol)),
{
    lemma_filter_twice(
        log,
        type_pass(type_filter),
        symbol_pass(symbol),
        both_pass(type_filter, symbol),
    );
}

/// Filtering again what the filters have let through changes nothing.
pub proof fn lemma_visible_idempotent(
    log: Seq<TradeView>,
    type_filter: Option<Seq<char>>,
    symbol: Option<Seq<char>>,
)
    ensures
        visible(visible(log, type_filter, symbol), type_filter, symbol) == visible(
            log,
            type_filter,
            symbol,
        ),
{
    let both = both_pass(type_filter, symbol);
    lemma_visible_one_pass(log, type_filter, symbol);
    lemma_visible_one_pass(log.filter(both), type_filter, symbol);
    lemma_filter_twice(log, both, both, both);
}

/// Every visible trade passes both filters and stands in the log, and the
/// visible sequence is no longer than the log.
pub proof fn lemma_visible_sound(
    log: Seq<TradeView>,
    type_filter: Option<Seq<char>>,
    symbol: Option<Seq<char>>,
)
    ensures
        visible(log, type_filter, symbol).len() <= log.len(),
        forall|i: int|
            0 <= i < visible(log, type_filter, symbol).len() ==> {
                let trade = #[trigger] visible(log, type_filter, symbol)[i];
                passes_type(trade, type_filter) && passes_symbol(trade, symbol) && log.contains(
                    trade,
                )
            },
{
    let both = both_pass(type_filter, symbol);
    lemma_visible_one_pass(log, type_filter, symbol);
    log.lemma_filter_len(both);
    assert forall|i: int| 0 <= i < log.filter(both).len() implies {
        let trade = #[trigger] log.filter(both)[i];
        passes_type(trade, type_filter) && passes_symbol(trade, symbol) && log.contains(trade)
    } by {
        log.lemma_filter_pred(both, i);
        log.lemma_filter_contains_rev(both, log.filter(both)[i]);
    }
}

/// With no filter set, every trade is visible.
pub proof fn lemma_visible_unfiltered(log: Seq<TradeView>)
    ensures
        visible(log, None, None) == log,
    decreases log.len(),
{
    let both = both_pass(None, None);
    lemma_visible_one_pass(log, None, None);
    if log.len() == 0 {
        reveal(Seq::filter);
        assert(log.filter(both) =~= log);
    } else {
        lemma_visible_unfiltered(log.drop_last());
        lemma_visible_one_pass(log.drop_last(), None, None);
        assert(log =~= log.drop_last().push(log.last()));
        log.drop_last().lemma_filter_push(log.last(), both);
    }
}

/// A trade put in front of the log stands in front of the visible sequence
/// where it passes both filters, and leaves the visible sequence as it was
/// where it does not.
pub proof fn lemma_visible_prepend(
    newest: TradeView,
    older: Seq<TradeView>,
    type_filter: Option<Seq<char>>,
    symbol: Option<Seq<char>>,
)
    ensures
        visible(seq![newest] + older, type_filter, symbol) == if passes_type(newest, type_filter)
            && passes_symbol(newest, symbol) {
            seq![newest] + visible(older, type_filter, symbol)
        } else {
            visible(older, type_filter, symbol)
        },
{
    let both = both_pass(type_filter, symbol);
    lemma_visible_one_pass(seq![newest] + older, type_filter, symbol);
    lemma_visible_one_pass(older, type_filter, symbol);
    Seq::filter_distributes_over_add(seq![newest], older, both);
    assert(seq![newest] =~= Seq::<TradeView>::empty().push(newest));
    Seq::<TradeView>::empty().lemma_filter_push(newest, both);
    assert(Seq::<TradeView>::empty().filter(both) =~= Seq::<TradeView>::empty()) by {
        reveal(Seq::filter);
    }
    if both(newest) {
        assert(seq![newest].filter(both) =~= seq![newest]);
    } else {
        assert(seq![newest].filter(both) + older.filter(both) =~= older.filter(both));
    }
}

/// When a visible trade arrives and the offset moves down by one with it,
/// the rows on screen are the rows that were there before.
pub proof fn lemma_arrival_keeps_rows(
    newest: TradeView,
    older: Seq<TradeView>,
    type_filter: Option<Seq<char>>,
    symbol: Option<Seq<char>>,
    offset: int,
    len: int,
)
    requires
        passes_type(newest, type_filter),
        passes_symbol(newest, symbol),
        0 <= offset,
        0 <= len,
        offset + len <= visible(older, type_filter, symbol).len(),
    ensures
        visible(seq![newest] + older, type_filter, symbol).subrange(
            offset + 1,
            offset + 1 + len,
        ) == visible(older, type_filter, symbol).subrange(offset, offset + len),
{
    lemma_visible_prepend(newest, older, type_filter, symbol);
    let before = visible(older, type_filter, symbol);
    assert((seq![newest] + before).subrange(offset + 1, offset + 1 + len) =~= before.subrange(
        offset,
        offset + len,
    ));
}

/// Whether a folded key matches what is wanted of it: anything does where
/// nothing is wanted, else only the same text.
pub fn key_matches(key: &String, wanted: &Option<String>) -> (r: bool)
    ensures
        r == match wanted {
            None => true,
            Some(w) => key@ == w@,
        },
{
    match wanted {
        None => true,
        Some(w) => *key == *w,
    }
}

/// The type filter's tag folded to lower case, once for a whole pass.
pub fn fold_type_filter(type_filter: &Option<String>) -> (folded: Option<String>)
    ensures
        text_of(folded) == match text_of(*type_filter) {
            None => None,
            Some(tag) => Some(lowercase_of(tag)),
        },
{
    match type_filter {
        None => None,
        Some(tag) => Some(tag.as_str().to_lowercase()),
    }
}

/// Whether `trade` is visible under a type filter whose tag has been folded
/// to lower case and a committed symbol.
fn is_shown(trade: &Trade, folded_type: &Option<String>, symbol: &Option<String>) -> (r: bool)
    ensures
        r == (match text_of(*folded_type) {
            None => true,
            Some(tag) => lowercase_of(trade@.trade_type) == tag,
        } && passes_symbol(trade@, text_of(*symbol))),
{
    let type_ok: bool = match folded_type {
        None => true,
        Some(_) => {
            let key: String = trade.trade_type.as_str().to_lowercase();
            key_matches(&key, folded_type)
        },
    };
    if !type_ok {
        return false;
    }
    match symbol {
        None => true,
        Some(_) => {
            let key: String = trade.coin_symbol.as_str().to_uppercase();
            key_matches(&key, symbol)
        },
    }
}

/// The trades of `log` that are visible under `type_filter` and `symbol`, in
/// log order.
pub fn visible_trades(
    log: &VecDeque<Trade>,
    type_filter: &Option<String>,
    symbol: &Option<String>,
) -> (shown: Vec<Trade>)
    ensures
        views(shown@) == visible(views(log@), text_of(*type_filter), text_of(*symbol)),
{
    let folded: Option<String> = fold_type_filter(type_filter);
    let ghost both = both_pass(text_of(*type_filter), text_of(*symbol));
    let ghost all = views(log@);
    let mut shown: Vec<Trade> = Vec::new();
    let mut i: usize = 0;
    proof {
        reveal(Seq::filter);
        assert(all.take(0) =~= Seq::<TradeView>::empty());
        assert(views(shown@) =~= all.take(0).filter(both));
    }
    while i < log.len()
        invariant
            i <= log@.len(),
            all == views(log@),
            both == both_pass(text_of(*type_filter), text_of(*symbol)),
            text_of(folded) == match text_of(*type_filter) {
                None => None,
                Some(tag) => Some(lowercase_of(tag)),
            },
            views(shown@) == all.take(i as int).filter(both),
        decreases log@.len() - i,
    {
        let ghost before = views(shown@);
        proof {
            assert(all.take(i + 1) =~= all.take(i as int).push(all[i as int]));
            all.take(i as int).lemma_filter_push(all[i as int], both);
        }
        if is_shown(&log[i], &folded, symbol) {
            shown.push(log[i].clone());
            assert(views(shown@) =~= before.push(all[i as int]));
        }
        i = i + 1;
    }
    proof {
        assert(all.take(i as int) =~= all);
        lemma_visible_one_pass(all, text_of(*type_filter), text_of(*symbol));
    }
    shown
}

/// How many trades of `log` are visible under `type_filter` and `symbol`.
pub fn visible_count(
    log: &VecDeque<Trade>,
    type_filter: &Option<String>,
    symbol: &Option<String>,
) -> (n: usize)
    ensures
        n == visible(views(log@), text_of(*type_filter), text_of(*symbol)).len(),
        n <= log@.len(),
{
    let folded: Option<String> = fold_type_filter(type_filter);
    let ghost both = both_pass(text_of(*type_filter), text_of(*symbol));
    let ghost all = views(log@);
    let mut n: usize = 0;
    let mut i: usize = 0;
    proof {
        reveal(Seq::filter);
        assert(all.take(0) =~= Seq::<TradeView>::empty());
    }
    while i < log.len()
        invariant
            i <= log@.len(),
            n <= i,
            all == views(log@),
            both == both_pass(text_of(*type_filter), text_of(*symbol)),
            text_of(folded) == match text_of(*type_filter) {
                None => None,
                Some(tag) => Some(lowercase_of(tag)),
            },
            n == all.take(i as int).filter(both).len(),
        decreases log@.len() - i,
    {
        proof {
            assert(all.take(i + 1) =~= all.take(i as int).push(all[i as int]));
            all.take(i as int).lemma_filter_push(all[i as int], both);
        }
        if is_shown(&log[i], &folded, symbol) {
            n = n + 1;
        }
        i = i + 1;
    }
    proof {
        assert(all.take(i as int) =~= all);
        lemma_visible_one_pass(all, text_of(*type_filter), text_of(*symbol));
    }
    n
}

} // verus!
