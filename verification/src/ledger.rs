//! The ledger: an append-only trade log, newest first, and the table of
//! per-user, per-coin balances derived from it.
//!
//! The table is derived data. `tallies` says what it means for a table to
//! agree with a log, and both ways of bringing the table up to date, one
//! trade at a time or by replaying the whole log, go through the same
//! `credit` step and end in a table that tallies.

use std::collections::VecDeque;
use vstd::prelude::*;
use vstd::string::StringExecFns;

use crate::trade::{views, Action, Trade, TradeView};

verus! {

/// One row of the balance table: what `username` holds of `coin_symbol`.
#[derive(Debug, PartialEq, Eq)]
pub struct Holding {
    pub username: String,
    pub coin_symbol: String,
    /// Signed running quantity in base units of the coin.
    pub quantity: i128,
}

/// The mathematical content of a `Holding`.
pub struct HoldingView {
    pub username: Seq<char>,
    pub coin_symbol: Seq<char>,
    pub quantity: int,
}

impl View for Holding {
    type V = HoldingView;

    open spec fn view(&self) -> HoldingView {
        HoldingView {
            username: self.username@,
            coin_symbol: self.coin_symbol@,
            quantity: self.quantity as int,
        }
    }
}

impl Clone for Holding {
    fn clone(&self) -> (h: Self)
        ensures
            h == *self,
    {
        Holding {
            username: self.username.clone(),
            coin_symbol: self.coin_symbol.clone(),
            quantity: self.quantity,
        }
    }
}

impl HoldingView {
    /// Whether this is the row of `user` in `coin`.
    pub open spec fn is_for(self, user: Seq<char>, coin: Seq<char>) -> bool {
        self.username == user && self.coin_symbol == coin
    }
}

/// The views of a sequence of holdings, in the same order.
pub open spec fn holding_views(holdings: Seq<Holding>) -> Seq<HoldingView> {
    holdings.map_values(|h: Holding| h@)
}

/// What `user` holds of `coin` according to `log`: the amounts of their buys
/// of it less the amounts of their sells of it.
pub open spec fn net_quantity(log: Seq<TradeView>, user: Seq<char>, coin: Seq<char>) -> int
    decreases log.len(),
{
    if log.len() == 0 {
        0
    } else {
        net_quantity(log.drop_first(), user, coin) + if log[0].concerns(user, coin) {
            log[0].delta()
        } else {
            0
        }
    }
}

/// Whether some trade in `log` is one of `user` in `coin`.
pub open spec fn mentions(log: Seq<TradeView>, user: Seq<char>, coin: Seq<char>) -> bool {
    exists|k: int| 0 <= k < log.len() && #[trigger] log[k].concerns(user, coin)
}

/// Whether `table` has a row for `user` in `coin`.
pub open spec fn lists(table: Seq<HoldingView>, user: Seq<char>, coin: Seq<char>) -> bool {
    exists|i: int| 0 <= i < table.len() && #[trigger] table[i].is_for(user, coin)
}

/// Whether `table` is the balance table of `log`: one row for each pair of
/// user and coin that the log mentions, no row twice and none for a pair it
/// does not mention, each with the pair's net quantity.
pub open spec fn tallies(table: Seq<HoldingView>, log: Seq<TradeView>) -> bool {
    &&& forall|i: int, j: int|
        #![trigger table[i], table[j]]
        0 <= i < j < table.len() ==> !table[i].is_for(table[j].username, table[j].coin_symbol)
    &&& forall|user: Seq<char>, coin: Seq<char>|
        #![trigger lists(table, user, coin)]
        #![trigger mentions(log, user, coin)]
        lists(table, user, coin) <==> mentions(log, user, coin)
    &&& forall|i: int|
        0 <= i < table.len() ==> (#[trigger] table[i]).quantity == net_quantity(
            log,
            table[i].username,
            table[i].coin_symbol,
        )
}

/// Whether `after` keeps every row of `before` in its place, under the same
/// user and coin, and adds at most one row behind them.
pub open spec fn extends(before: Seq<HoldingView>, after: Seq<HoldingView>) -> bool {
    &&& before.len() <= after.len() <= before.len() + 1
    &&& forall|i: int|
        0 <= i < before.len() ==> (#[trigger] after[i]).is_for(
            before[i].username,
            before[i].coin_symbol,
        )
}

/// The index of the row of `user` in `coin`, where `table` has one.
pub open spec fn row_of(table: Seq<HoldingView>, user: Seq<char>, coin: Seq<char>) -> int {
    choose|i: int| 0 <= i < table.len() && #[trigger] table[i].is_for(user, coin)
}

/// `table` after `trade` has been credited to it: the row of the trade's
/// user and coin takes the trade's delta, and where there is no such row
/// one is opened behind the others with just that delta.
pub open spec fn credited(table: Seq<HoldingView>, trade: TradeView) -> Seq<HoldingView> {
    if lists(table, trade.username, trade.coin_symbol) {
        let at = row_of(table, trade.username, trade.coin_symbol);
        table.update(at, HoldingView { quantity: table[at].quantity + trade.delta(), ..table[at] })
    } else {
        table.push(
            HoldingView {
                username: trade.username,
                coin_symbol: trade.coin_symbol,
                quantity: trade.delta(),
            },
        )
    }
}

/// The balance table of `log`: what crediting its trades to an empty table
/// gives, oldest trade first.
pub open spec fn table_of(log: Seq<TradeView>) -> Seq<HoldingView>
    decreases log.len(),
{
    if log.len() == 0 {
        Seq::empty()
    } else {
        credited(table_of(log.drop_first()), log[0])
    }
}

/// The largest magnitude a single trade can move a balance by.
pub open spec fn max_delta() -> int {
    0x8000_0000_0000_0000
}

/// A log with `newest` in front of `older` nets what `older` nets, plus
/// `newest`'s own contribution where it concerns the pair.
pub proof fn lemma_net_prepend(
    newest: TradeView,
    older: Seq<TradeView>,
    user: Seq<char>,
    coin: Seq<char>,
)
    ensures
        net_quantity(seq![newest] + older, user, coin) == net_quantity(older, user, coin)
            + if newest.concerns(user, coin) {
            newest.delta()
        } else {
            0
        },
{
    let log = seq![newest] + older;
    assert(log.drop_first() =~= older);
    assert(log[0] == newest);
}

/// A pair that the log does not mention nets zero.
pub proof fn lemma_unmentioned_nets_zero(log: Seq<TradeView>, user: Seq<char>, coin: Seq<char>)
    requires
        !mentions(log, user, coin),
    ensures
        net_quantity(log, user, coin) == 0,
    decreases log.len(),
{
    if log.len() > 0 {
        assert(!log[0].concerns(user, coin));
        let rest = log.drop_first();
        assert forall|k: int| 0 <= k < rest.len() implies !#[trigger] rest[k].concerns(
            user,
            coin,
        ) by {
            assert(rest[k] == log[k + 1]);
            assert(!log[k + 1].concerns(user, coin));
        }
        lemma_unmentioned_nets_zero(rest, user, coin);
    }
}

/// No balance is further from zero than the number of trades times the
/// largest single move.
pub proof fn lemma_net_bounded(log: Seq<TradeView>, user: Seq<char>, coin: Seq<char>)
    ensures
        -(log.len() * max_delta()) <= net_quantity(log, user, coin) <= log.len() * max_delta(),
    decreases log.len(),
{
    if log.len() > 0 {
        lemma_net_bounded(log.drop_first(), user, coin);
        assert(log.drop_first().len() == log.len() - 1);
        assert(-max_delta() <= log[0].delta() <= max_delta());
        assert((log.len() - 1) * max_delta() + max_delta() == log.len() * max_delta())
            by (nonlinear_arith);
    }
}

/// A log with `newest` in front of `older` mentions what `older` mentions and
/// what `newest` is about.
proof fn lemma_mentions_prepend(
    newest: TradeView,
    older: Seq<TradeView>,
    user: Seq<char>,
    coin: Seq<char>,
)
    ensures
        mentions(seq![newest] + older, user, coin) <==> newest.concerns(user, coin) || mentions(
            older,
            user,
            coin,
        ),
{
    let log = seq![newest] + older;
    if mentions(log, user, coin) {
        let k = choose|k: int| 0 <= k < log.len() && #[trigger] log[k].concerns(user, coin);
        if k > 0 {
            assert(older[k - 1] == log[k]);
            assert(older[k - 1].concerns(user, coin));
        }
    }
    if newest.concerns(user, coin) {
        assert(log[0].concerns(user, coin));
    }
    if mentions(older, user, coin) {
        let k = choose|k: int| 0 <= k < older.len() && #[trigger] older[k].concerns(user, coin);
        assert(log[k + 1] == older[k]);
        assert(log[k + 1].concerns(user, coin));
    }
}

/// Crediting a trade to the row of its pair keeps the table in step with the
/// log that the trade is put in front of.
proof fn lemma_credit_row(
    table: Seq<HoldingView>,
    older: Seq<TradeView>,
    newest: TradeView,
    at: int,
)
    requires
        tallies(table, older),
        0 <= at < table.len(),
        table[at].is_for(newest.username, newest.coin_symbol),
    ensures
        tallies(
            table.update(
                at,
                HoldingView { quantity: table[at].quantity + newest.delta(), ..table[at] },
            ),
            seq![newest] + older,
        ),
{
    let row = HoldingView { quantity: table[at].quantity + newest.delta(), ..table[at] };
    let after = table.update(at, row);
    let log = seq![newest] + older;
    assert forall|user: Seq<char>, coin: Seq<char>|
        #![trigger lists(after, user, coin)]
        #![trigger mentions(log, user, coin)]
        lists(after, user, coin) <==> mentions(log, user, coin) by {
        lemma_mentions_prepend(newest, older, user, coin);
        if lists(after, user, coin) {
            let i = choose|i: int| 0 <= i < after.len() && #[trigger] after[i].is_for(user, coin);
            assert(table[i].is_for(user, coin));
            assert(lists(table, user, coin));
        }
        if newest.concerns(user, coin) {
            assert(after[at].is_for(user, coin));
        }
        if mentions(older, user, coin) {
            assert(lists(table, user, coin));
            let i = choose|i: int| 0 <= i < table.len() && #[trigger] table[i].is_for(user, coin);
            assert(after[i].is_for(user, coin));
        }
    }
    assert forall|i: int| 0 <= i < after.len() implies (#[trigger] after[i]).quantity
        == net_quantity(log, after[i].username, after[i].coin_symbol) by {
        lemma_net_prepend(newest, older, after[i].username, after[i].coin_symbol);
        if i != at {
            assert(after[i] == table[i]);
            if i < at {
                assert(!table[i].is_for(table[at].username, table[at].coin_symbol));
            } else {
                assert(!table[at].is_for(table[i].username, table[i].coin_symbol));
            }
        }
    }
    assert forall|i: int, j: int|
        #![trigger after[i], after[j]]
        0 <= i < j < after.len() implies !after[i].is_for(
        after[j].username,
        after[j].coin_symbol,
    ) by {
        assert(!table[i].is_for(table[j].username, table[j].coin_symbol));
    }
}

/// Opening a row for a trade whose pair has none keeps the table in step
/// with the log that the trade is put in front of.
proof fn lemma_open_row(table: Seq<HoldingView>, older: Seq<TradeView>, newest: TradeView)
    requires
        tallies(table, older),
        !lists(table, newest.username, newest.coin_symbol),
    ensures
        tallies(
            table.push(
                HoldingView {
                    username: newest.username,
                    coin_symbol: newest.coin_symbol,
                    quantity: newest.delta(),
                },
            ),
            seq![newest] + older,
        ),
{
    let row = HoldingView {
        username: newest.username,
        coin_symbol: newest.coin_symbol,
        quantity: newest.delta(),
    };
    let after = table.push(row);
    let log = seq![newest] + older;
    let last = table.len() as int;
    assert(after[last] == row);
    assert forall|user: Seq<char>, coin: Seq<char>|
        #![trigger lists(after, user, coin)]
        #![trigger mentions(log, user, coin)]
        lists(after, user, coin) <==> mentions(log, user, coin) by {
        lemma_mentions_prepend(newest, older, user, coin);
        if lists(after, user, coin) {
            let i = choose|i: int| 0 <= i < after.len() && #[trigger] after[i].is_for(user, coin);
            if i < last {
                assert(table[i].is_for(user, coin));
                assert(lists(table, user, coin));
            }
        }
        if newest.concerns(user, coin) {
            assert(after[last].is_for(user, coin));
        }
        if mentions(older, user, coin) {
            assert(lists(table, user, coin));
            let i = choose|i: int| 0 <= i < table.len() && #[trigger] table[i].is_for(user, coin);
            assert(after[i].is_for(user, coin));
        }
    }
    assert forall|i: int| 0 <= i < after.len() implies (#[trigger] after[i]).quantity
        == net_quantity(log, after[i].username, after[i].coin_symbol) by {
        lemma_net_prepend(newest, older, after[i].username, after[i].coin_symbol);
        if i < last {
            assert(after[i] == table[i]);
            if newest.concerns(table[i].username, table[i].coin_symbol) {
                assert(table[i].is_for(newest.username, newest.coin_symbol));
            }
        } else {
            assert(!mentions(older, newest.username, newest.coin_symbol));
            lemma_unmentioned_nets_zero(older, newest.username, newest.coin_symbol);
        }
    }
    assert forall|i: int, j: int|
        #![trigger after[i], after[j]]
        0 <= i < j < after.len() implies !after[i].is_for(
        after[j].username,
        after[j].coin_symbol,
    ) by {
        if j < last {
            assert(!table[i].is_for(table[j].username, table[j].coin_symbol));
        } else {
            if table[i].is_for(newest.username, newest.coin_symbol) {
                assert(lists(table, newest.username, newest.coin_symbol));
            }
        }
    }
}

/// Crediting a trade keeps the table in step with the log that the trade is
/// put in front of.
pub proof fn lemma_credited_tallies(
    table: Seq<HoldingView>,
    older: Seq<TradeView>,
    newest: TradeView,
)
    requires
        tallies(table, older),
    ensures
        tallies(credited(table, newest), seq![newest] + older),
        extends(table, credited(table, newest)),
{
    if lists(table, newest.username, newest.coin_symbol) {
        lemma_credit_row(
            table,
            older,
            newest,
            row_of(table, newest.username, newest.coin_symbol),
        );
    } else {
        lemma_open_row(table, older, newest);
    }
}

/// The balance table of a log tallies with it: it has one row for each pair
/// of user and coin that the log mentions, and the row holds the pair's buys
/// less its sells.
pub proof fn lemma_table_of_tallies(log: Seq<TradeView>)
    ensures
        tallies(table_of(log), log),
    decreases log.len(),
{
    if log.len() == 0 {
        assert forall|user: Seq<char>, coin: Seq<char>|
            !lists(table_of(log), user, coin) && !mentions(log, user, coin) by {}
    } else {
        lemma_table_of_tallies(log.drop_first());
        lemma_credited_tallies(table_of(log.drop_first()), log.drop_first(), log[0]);
        assert(seq![log[0]] + log.drop_first() =~= log);
    }
}

/// The balance table of a log with `newest` in front of `older` is the
/// balance table of `older` with `newest` credited to it.
pub proof fn lemma_table_of_prepend(newest: TradeView, older: Seq<TradeView>)
    ensures
        table_of(seq![newest] + older) == credited(table_of(older), newest),
{
    let log = seq![newest] + older;
    assert(log.drop_first() =~= older);
    assert(log[0] == newest);
}

/// The balance that `table` records for `user` in `coin`: the quantity of
/// the pair's row, and zero where there is none.
pub open spec fn table_balance(table: Seq<HoldingView>, user: Seq<char>, coin: Seq<char>) -> int {
    if lists(table, user, coin) {
        let i = choose|i: int| 0 <= i < table.len() && #[trigger] table[i].is_for(user, coin);
        table[i].quantity
    } else {
        0
    }
}

/// The mapping that `table` stands for: from each pair of user and coin that
/// has a row to the quantity in that row.
pub open spec fn balance_map(table: Seq<HoldingView>) -> Map<(Seq<char>, Seq<char>), int> {
    Map::new(
        |pair: (Seq<char>, Seq<char>)| lists(table, pair.0, pair.1),
        |pair: (Seq<char>, Seq<char>)| table_balance(table, pair.0, pair.1),
    )
}

/// A table that tallies with a log records for every pair, listed or not,
/// the pair's net quantity in that log.
pub proof fn lemma_table_balance(
    table: Seq<HoldingView>,
    log: Seq<TradeView>,
    user: Seq<char>,
    coin: Seq<char>,
)
    requires
        tallies(table, log),
    ensures
        table_balance(table, user, coin) == net_quantity(log, user, coin),
{
    if lists(table, user, coin) {
        let i = choose|i: int| 0 <= i < table.len() && #[trigger] table[i].is_for(user, coin);
        assert(table[i].quantity == net_quantity(log, table[i].username, table[i].coin_symbol));
    } else {
        assert(!mentions(log, user, coin));
        lemma_unmentioned_nets_zero(log, user, coin);
    }
}

/// Two tables that tally with the same log stand for the same mapping,
/// whichever way each was brought up to date: trade by trade as the log
/// grew, or by one replay of the whole log.
pub proof fn lemma_tallies_agree(a: Seq<HoldingView>, b: Seq<HoldingView>, log: Seq<TradeView>)
    requires
        tallies(a, log),
        tallies(b, log),
    ensures
        balance_map(a) == balance_map(b),
{
    assert forall|pair: (Seq<char>, Seq<char>)|
        lists(a, pair.0, pair.1) == lists(b, pair.0, pair.1) && table_balance(a, pair.0, pair.1)
            == table_balance(b, pair.0, pair.1) by {
        lemma_table_balance(a, log, pair.0, pair.1);
        lemma_table_balance(b, log, pair.0, pair.1);
        assert(lists(a, pair.0, pair.1) <==> mentions(log, pair.0, pair.1));
        assert(lists(b, pair.0, pair.1) <==> mentions(log, pair.0, pair.1));
    }
    assert(balance_map(a) =~= balance_map(b));
}

/// The log after the trades of `arrivals` have been ingested into `log` one
/// by one, first to last.
pub open spec fn ingested(log: Seq<TradeView>, arrivals: Seq<TradeView>) -> Seq<TradeView>
    decreases arrivals.len(),
{
    if arrivals.len() == 0 {
        log
    } else {
        seq![arrivals.last()] + ingested(log, arrivals.drop_last())
    }
}

/// Trades stand in the log in the reverse of the order in which they came,
/// in front of everything that was there before.
pub proof fn lemma_ingested_newest_first(log: Seq<TradeView>, arrivals: Seq<TradeView>)
    ensures
        ingested(log, arrivals) == arrivals.reverse() + log,
    decreases arrivals.len(),
{
    if arrivals.len() == 0 {
        assert(arrivals.reverse() + log =~= log);
    } else {
        lemma_ingested_newest_first(log, arrivals.drop_last());
        assert(seq![arrivals.last()] + (arrivals.drop_last().reverse() + log) =~= arrivals.reverse()
            + log);
    }
}

/// After three trades have been ingested, the third stands first, the first
/// stands third, and the log from before follows.
pub proof fn lemma_three_ingested(
    log: Seq<TradeView>,
    first: TradeView,
    second: TradeView,
    third: TradeView,
)
    ensures
        seq![third] + (seq![second] + (seq![first] + log)) == seq![third, second, first] + log,
        ingested(log, seq![first, second, third]) == seq![third, second, first] + log,
{
    assert(seq![third] + (seq![second] + (seq![first] + log)) =~= seq![third, second, first] + log);
    lemma_ingested_newest_first(log, seq![first, second, third]);
    assert(seq![first, second, third].reverse() =~= seq![third, second, first]);
}

/// What `trade` moves its trader's balance by.
fn signed_amount(trade: &Trade) -> (d: i128)
    ensures
        d == trade@.delta(),
{
    match trade.action {
        Action::Buy => trade.amount as i128,
        Action::Sell => -(trade.amount as i128),
        Action::Other => 0,
    }
}

/// The index of the row of `user` in `coin`, or the table's length where
/// there is none.
fn find_row(balances: &Vec<Holding>, user: &String, coin: &String) -> (at: usize)
    ensures
        at <= balances@.len(),
        at < balances@.len() ==> balances@[at as int]@.is_for(user@, coin@),
        at == balances@.len() <==> !lists(holding_views(balances@), user@, coin@),
{
    let ghost table = holding_views(balances@);
    let mut at: usize = 0;
    while at < balances.len()
        invariant
            at <= balances@.len(),
            table == holding_views(balances@),
            forall|i: int| 0 <= i < at ==> !(#[trigger] table[i]).is_for(user@, coin@),
        decreases balances@.len() - at,
    {
        if balances[at].username == *user && balances[at].coin_symbol == *coin {
            assert(table[at as int].is_for(user@, coin@));
            return at;
        }
        at = at + 1;
    }
    at
}

/// Credits `trade` to a table that tallies with `older`, the log that the
/// trade is put in front of.
fn credit(balances: &mut Vec<Holding>, trade: &Trade, Ghost(older): Ghost<Seq<TradeView>>)
    requires
        tallies(holding_views(old(balances)@), older),
        older.len() < usize::MAX,
    ensures
        holding_views(final(balances)@) == credited(holding_views(old(balances)@), trade@),
{
    let ghost before = holding_views(balances@);
    let delta: i128 = signed_amount(trade);
    let at: usize = find_row(balances, &trade.username, &trade.coin_symbol);
    if at < balances.len() {
        proof {
            lemma_net_bounded(older, before[at as int].username, before[at as int].coin_symbol);
            assert(older.len() * max_delta() + max_delta() <= 0x7fff_ffff_ffff_ffff_ffff_ffff_ffff_ffff)
                by (nonlinear_arith)
                requires
                    older.len() < 0xffff_ffff_ffff_ffff,
                    max_delta() == 0x8000_0000_0000_0000,
            ;
            // No pair has two rows, so the row found is the row of the pair.
            let chosen = row_of(before, trade@.username, trade@.coin_symbol);
            assert(before[at as int].is_for(trade@.username, trade@.coin_symbol));
            if chosen < at {
                assert(!before[chosen].is_for(
                    before[at as int].username,
                    before[at as int].coin_symbol,
                ));
            } else if at < chosen {
                assert(!before[at as int].is_for(before[chosen].username, before[chosen].coin_symbol));
            }
        }
        let row: Holding = Holding {
            username: balances[at].username.clone(),
            coin_symbol: balances[at].coin_symbol.clone(),
            quantity: balances[at].quantity + delta,
        };
        balances.set(at, row);
        assert(holding_views(balances@) =~= credited(before, trade@));
    } else {
        balances.push(
            Holding {
                username: trade.username.clone(),
                coin_symbol: trade.coin_symbol.clone(),
                quantity: delta,
            },
        );
        assert(holding_views(balances@) =~= credited(before, trade@));
    }
}

/// The trade log and the balances derived from it.
pub struct Ledger {
    log: VecDeque<Trade>,
    balances: Vec<Holding>,
}

impl Ledger {
    /// The log, newest trade first.
    pub closed spec fn log_view(&self) -> Seq<TradeView> {
        views(self.log@)
    }

    /// The balance table, row by row.
    pub closed spec fn holdings(&self) -> Seq<HoldingView> {
        holding_views(self.balances@)
    }

    /// Whether the balance table is that of the log.
    pub open spec fn wf(&self) -> bool {
        self.holdings() == table_of(self.log_view())
    }

    /// What `user` holds of `coin` by the log.
    pub open spec fn balance(&self, user: Seq<char>, coin: Seq<char>) -> int {
        net_quantity(self.log_view(), user, coin)
    }

    /// The balances as a mapping from user and coin to quantity.
    pub open spec fn balance_map(&self) -> Map<(Seq<char>, Seq<char>), int> {
        balance_map(self.holdings())
    }

    /// The balance table of a ledger tallies with its log: every pair of
    /// user and coin that the log mentions has one row, and the row holds the
    /// pair's buys less its sells.
    pub proof fn lemma_wf_tallies(&self)
        requires
            self.wf(),
        ensures
            tallies(self.holdings(), self.log_view()),
            forall|user: Seq<char>, coin: Seq<char>|
                #[trigger] table_balance(self.holdings(), user, coin) == self.balance(user, coin),
    {
        lemma_table_of_tallies(self.log_view());
        assert forall|user: Seq<char>, coin: Seq<char>|
            #[trigger] table_balance(self.holdings(), user, coin) == self.balance(user, coin) by {
            lemma_table_balance(self.holdings(), self.log_view(), user, coin);
        }
    }

    /// Two ledgers with the same log have the same balances, row for row,
    /// whether each got there by ingesting trade after trade or by
    /// recomputing from its log.
    pub proof fn lemma_same_log_same_balances(&self, other: &Ledger)
        requires
            self.wf(),
            other.wf(),
            self.log_view() == other.log_view(),
        ensures
            self.holdings() == other.holdings(),
            self.balance_map() == other.balance_map(),
    {
    }

    /// A ledger over a loaded history, given newest trade first, with an
    /// empty balance table. The table is that of the log once
    /// `recompute_balances` has run; with an empty history it is so from the
    /// start.
    pub fn new(initial_trades: Vec<Trade>) -> (ledger: Ledger)
        ensures
            ledger.log_view() == views(initial_trades@),
            ledger.holdings() == Seq::<HoldingView>::empty(),
            initial_trades@.len() == 0 ==> ledger.wf(),
    {
        let mut rest: Vec<Trade> = initial_trades;
        let mut log: VecDeque<Trade> = VecDeque::new();
        while rest.len() > 0
            invariant
                rest@.len() <= initial_trades@.len(),
                rest@ == initial_trades@.subrange(0, rest@.len() as int),
                log@ == initial_trades@.subrange(rest@.len() as int, initial_trades@.len() as int),
            decreases rest@.len(),
        {
            match rest.pop() {
                Some(trade) => {
                    log.push_front(trade);
                    assert(log@ =~= initial_trades@.subrange(
                        rest@.len() as int,
                        initial_trades@.len() as int,
                    ));
                    assert(rest@ =~= initial_trades@.subrange(0, rest@.len() as int));
                },
                None => {},
            }
        }
        assert(log@ =~= initial_trades@);
        let ledger = Ledger { log, balances: Vec::new() };
        assert(ledger.holdings() =~= Seq::<HoldingView>::empty());
        ledger
    }

    /// Appends `trade` to the front of the log and moves the balance of its
    /// user in its coin: up by the amount for a buy, down by it for a sell,
    /// not at all for any other action. The pair gets a row in the balance
    /// table if it had none.
    pub fn ingest(&mut self, trade: Trade)
        requires
            old(self).wf(),
        ensures
            final(self).wf(),
            final(self).log_view() == seq![trade@] + old(self).log_view(),
            final(self).holdings() == credited(old(self).holdings(), trade@),
    {
        let ghost older = self.log_view();
        self.log.push_front(trade);
        // The log has grown by one, so the log from before was not full.
        let count: usize = self.log.len();
        assert(older.len() < count);
        assert(views(self.log@) =~= seq![trade@] + older);
        proof {
            lemma_table_of_tallies(older);
            lemma_table_of_prepend(trade@, older);
        }
        credit(&mut self.balances, &self.log[0], Ghost(older));
    }

    /// Clears the balance table and replays the whole log into it, oldest
    /// trade first. A table that was that of the log comes out as it was.
    pub fn recompute_balances(&mut self)
        ensures
            final(self).wf(),
            final(self).log_view() == old(self).log_view(),
            old(self).wf() ==> final(self).holdings() == old(self).holdings(),
    {
        self.balances.clear();
        let count: usize = self.log.len();
        let ghost log = self.log_view();
        let mut i: usize = count;
        assert(log.subrange(i as int, count as int) =~= Seq::<TradeView>::empty());
        assert(holding_views(self.balances@) =~= Seq::<HoldingView>::empty());
        while i > 0
            invariant
                i <= count,
                count == self.log@.len(),
                log == views(self.log@),
                holding_views(self.balances@) == table_of(log.subrange(i as int, count as int)),
            decreases i,
        {
            i = i - 1;
            let ghost older = log.subrange(i + 1, count as int);
            proof {
                assert(seq![log[i as int]] + older =~= log.subrange(i as int, count as int));
                lemma_table_of_tallies(older);
                lemma_table_of_prepend(log[i as int], older);
            }
            credit(&mut self.balances, &self.log[i], Ghost(older));
        }
        assert(log.subrange(0, count as int) =~= log);
    }

    /// The log, newest trade first.
    pub fn snapshot_log(&self) -> (log: &VecDeque<Trade>)
        ensures
            views(log@) == self.log_view(),
    {
        &self.log
    }

    /// The balance table, in the order in which its rows were opened.
    pub fn balances(&self) -> (table: &Vec<Holding>)
        ensures
            holding_views(table@) == self.holdings(),
    {
        &self.balances
    }

    /// The number of trades in the log.
    pub fn len(&self) -> (n: usize)
        ensures
            n == self.log_view().len(),
    {
        self.log.len()
    }

    /// What `user` holds of `coin`: zero where they never traded it.
    pub fn balance_of(&self, user: &str, coin: &str) -> (quantity: i128)
        requires
            self.wf(),
        ensures
            quantity == self.balance(user@, coin@),
    {
        let user: String = String::from_str(user);
        let coin: String = String::from_str(coin);
        let at: usize = find_row(&self.balances, &user, &coin);
        proof {
            lemma_table_of_tallies(self.log_view());
            lemma_table_balance(self.holdings(), self.log_view(), user@, coin@);
        }
        if at < self.balances.len() {
            proof {
                let table = self.holdings();
                let i = choose|i: int| 0 <= i < table.len() && #[trigger] table[i].is_for(user@, coin@);
                assert(table[at as int].is_for(user@, coin@));
                if i < at {
                    assert(!table[i].is_for(table[at as int].username, table[at as int].coin_symbol));
                } else if at < i {
                    assert(!table[at as int].is_for(table[i].username, table[i].coin_symbol));
                }
            }
            self.balances[at].quantity
        } else {
            0
        }
    }
}

} // verus!
