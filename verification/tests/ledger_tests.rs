use tradeboard::ledger::{Holding, Ledger};
use tradeboard::ranking::rank_holders;
use tradeboard::trade::{Action, Trade, ValueTier, UNITS_PER_WHOLE};

fn ledger_trade(action: Action, user: &str, whole: i64, coin: &str) -> Trade {
    Trade {
        timestamp: "12:00:00".to_string(),
        trade_type: "live-trade".to_string(),
        action,
        username: user.to_string(),
        amount: whole * UNITS_PER_WHOLE,
        coin_symbol: coin.to_string(),
        total_value: 0,
        price: 0,
    }
}

fn ledger_row(user: &str, coin: &str, whole: i128) -> Holding {
    Holding {
        username: user.to_string(),
        coin_symbol: coin.to_string(),
        quantity: whole * (UNITS_PER_WHOLE as i128),
    }
}

fn ledger_history() -> Vec<Trade> {
    // Oldest first.
    vec![
        ledger_trade(Action::Buy, "alice", 10, "COIN"),
        ledger_trade(Action::Buy, "bob", 3, "COIN"),
        ledger_trade(Action::Sell, "alice", 4, "COIN"),
        ledger_trade(Action::Other, "carol", 99, "COIN"),
        ledger_trade(Action::Buy, "alice", 7, "GEM"),
        ledger_trade(Action::Sell, "bob", 5, "COIN"),
        ledger_trade(Action::Buy, "alice", 1, "coin"),
        ledger_trade(Action::Sell, "dave", 2, "GEM"),
        ledger_trade(Action::Buy, "dave", 2, "GEM"),
    ]
}

#[test]
fn buy_then_sell_leaves_the_difference() {
    let mut ledger = Ledger::new(Vec::new());
    ledger.ingest(ledger_trade(Action::Buy, "alice", 10, "COIN"));
    ledger.ingest(ledger_trade(Action::Sell, "alice", 4, "COIN"));
    assert_eq!(
        ledger.balance_of("alice", "COIN"),
        6 * (UNITS_PER_WHOLE as i128)
    );
    assert_eq!(ledger.balances(), &vec![ledger_row("alice", "COIN", 6)]);
}

#[test]
fn new_ledger_is_empty() {
    let ledger = Ledger::new(Vec::new());
    assert_eq!(ledger.len(), 0);
    assert!(ledger.snapshot_log().is_empty());
    assert!(ledger.balances().is_empty());
    assert_eq!(ledger.balance_of("alice", "COIN"), 0);
}

#[test]
fn new_ledger_keeps_history_and_leaves_balances_to_recompute() {
    let mut newest_first = ledger_history();
    newest_first.reverse();
    let mut ledger = Ledger::new(newest_first.clone());
    assert_eq!(ledger.snapshot_log(), &newest_first);
    assert!(ledger.balances().is_empty());
    ledger.recompute_balances();
    assert_eq!(ledger.snapshot_log(), &newest_first);
    assert_eq!(
        ledger.balance_of("alice", "COIN"),
        6 * (UNITS_PER_WHOLE as i128)
    );
}

#[test]
fn ingest_prepends_to_the_log() {
    let prior = ledger_trade(Action::Buy, "zed", 1, "OLD");
    let mut ledger = Ledger::new(vec![prior.clone()]);
    ledger.recompute_balances();
    let t1 = ledger_trade(Action::Buy, "alice", 1, "A");
    let t2 = ledger_trade(Action::Sell, "bob", 2, "B");
    let t3 = ledger_trade(Action::Other, "carol", 3, "C");
    ledger.ingest(t1.clone());
    ledger.ingest(t2.clone());
    ledger.ingest(t3.clone());
    assert_eq!(ledger.snapshot_log(), &vec![t3, t2, t1, prior]);
    assert_eq!(ledger.len(), 4);
}

#[test]
fn incremental_and_recomputed_balances_agree() {
    let history = ledger_history();
    let mut incremental = Ledger::new(Vec::new());
    for trade in history.iter() {
        incremental.ingest(trade.clone());
    }
    let mut newest_first = history.clone();
    newest_first.reverse();
    let mut replayed = Ledger::new(newest_first);
    replayed.recompute_balances();
    assert_eq!(incremental.snapshot_log(), replayed.snapshot_log());
    assert_eq!(incremental.balances(), replayed.balances());
    for user in ["alice", "bob", "carol", "dave", "nobody"] {
        for coin in ["COIN", "GEM", "coin", "NONE"] {
            assert_eq!(
                incremental.balance_of(user, coin),
                replayed.balance_of(user, coin)
            );
        }
    }
    let mut again = Ledger::new(Vec::new());
    for trade in history.iter() {
        again.ingest(trade.clone());
    }
    again.recompute_balances();
    assert_eq!(again.balances(), incremental.balances());
}

#[test]
fn balances_are_buys_less_sells_per_user_and_coin() {
    let mut ledger = Ledger::new(Vec::new());
    for trade in ledger_history() {
        ledger.ingest(trade);
    }
    assert_eq!(
        ledger.balances(),
        &vec![
            ledger_row("alice", "COIN", 6),
            ledger_row("bob", "COIN", -2),
            ledger_row("carol", "COIN", 0),
            ledger_row("alice", "GEM", 7),
            ledger_row("alice", "coin", 1),
            ledger_row("dave", "GEM", 0),
        ]
    );
    assert_eq!(
        ledger.balance_of("bob", "COIN"),
        -2 * (UNITS_PER_WHOLE as i128)
    );
    assert_eq!(ledger.balance_of("carol", "COIN"), 0);
    assert_eq!(ledger.balance_of("alice", "Coin"), 0);
    assert_eq!(ledger.balance_of("Alice", "COIN"), 0);
}

#[test]
fn other_actions_are_logged_and_move_nothing() {
    let mut ledger = Ledger::new(Vec::new());
    ledger.ingest(ledger_trade(Action::Buy, "alice", 5, "COIN"));
    let odd = ledger_trade(Action::Other, "alice", 50, "COIN");
    ledger.ingest(odd.clone());
    assert_eq!(ledger.snapshot_log()[0], odd);
    assert_eq!(
        ledger.balance_of("alice", "COIN"),
        5 * (UNITS_PER_WHOLE as i128)
    );
}

#[test]
fn balances_do_not_overflow_at_the_extremes() {
    let mut ledger = Ledger::new(Vec::new());
    let mut big = ledger_trade(Action::Buy, "whale", 0, "COIN");
    big.amount = i64::MAX;
    let mut deep = ledger_trade(Action::Sell, "whale", 0, "COIN");
    deep.amount = i64::MIN;
    for _ in 0..4 {
        ledger.ingest(big.clone());
        ledger.ingest(deep.clone());
    }
    assert_eq!(
        ledger.balance_of("whale", "COIN"),
        4 * (i64::MAX as i128) - 4 * (i64::MIN as i128)
    );
}

#[test]
fn recompute_discards_a_stale_table() {
    let mut ledger = Ledger::new(Vec::new());
    ledger.ingest(ledger_trade(Action::Buy, "alice", 5, "COIN"));
    let mut moved = Ledger::new(ledger.snapshot_log().iter().cloned().collect());
    moved.recompute_balances();
    moved.recompute_balances();
    assert_eq!(moved.balances(), &vec![ledger_row("alice", "COIN", 5)]);
}

#[test]
fn holders_are_ranked_by_descending_quantity() {
    let table = vec![
        ledger_row("alice", "COIN", 6),
        ledger_row("bob", "COIN", -2),
        ledger_row("carol", "COIN", 0),
        ledger_row("alice", "GEM", 70),
        ledger_row("dave", "COIN", 9),
        ledger_row("erin", "coin", 100),
    ];
    assert_eq!(
        rank_holders(&table, &"COIN".to_string()),
        vec![
            ledger_row("dave", "COIN", 9),
            ledger_row("alice", "COIN", 6),
            ledger_row("bob", "COIN", -2),
        ]
    );
    assert_eq!(
        rank_holders(&table, &"GEM".to_string()),
        vec![ledger_row("alice", "GEM", 70)]
    );
    assert_eq!(rank_holders(&table, &"NONE".to_string()), Vec::new());
    assert_eq!(rank_holders(&Vec::new(), &"COIN".to_string()), Vec::new());
}

#[test]
fn holders_with_equal_quantities_keep_table_order() {
    let table = vec![
        ledger_row("a", "X", 5),
        ledger_row("b", "X", 7),
        ledger_row("c", "X", 5),
        ledger_row("d", "X", 7),
        ledger_row("e", "X", 5),
        ledger_row("f", "X", 1),
        ledger_row("g", "X", 7),
    ];
    let ranked = rank_holders(&table, &"X".to_string());
    let names: Vec<&str> = ranked.iter().map(|h| h.username.as_str()).collect();
    assert_eq!(names, vec!["b", "d", "g", "a", "c", "e", "f"]);
}

#[test]
fn action_tags_are_matched_exactly() {
    assert_eq!(Action::from_tag("BUY"), Action::Buy);
    assert_eq!(Action::from_tag("SELL"), Action::Sell);
    assert_eq!(Action::from_tag("buy"), Action::Other);
    assert_eq!(Action::from_tag("Sell"), Action::Other);
    assert_eq!(Action::from_tag(""), Action::Other);
    assert_eq!(Action::from_tag("TRANSFER"), Action::Other);
    assert_eq!(Action::from_tag("BUY "), Action::Other);
}

#[test]
fn value_tiers_step_at_powers_of_ten() {
    let mut trade = ledger_trade(Action::Buy, "alice", 1, "COIN");
    let cases = [
        (i64::MIN, ValueTier::Plain),
        (0, ValueTier::Plain),
        (10 * UNITS_PER_WHOLE - 1, ValueTier::Plain),
        (10 * UNITS_PER_WHOLE, ValueTier::Tens),
        (100 * UNITS_PER_WHOLE - 1, ValueTier::Tens),
        (100 * UNITS_PER_WHOLE, ValueTier::Hundreds),
        (1_000 * UNITS_PER_WHOLE - 1, ValueTier::Hundreds),
        (1_000 * UNITS_PER_WHOLE, ValueTier::Thousands),
        (10_000 * UNITS_PER_WHOLE - 1, ValueTier::Thousands),
        (10_000 * UNITS_PER_WHOLE, ValueTier::TenThousands),
        (i64::MAX, ValueTier::TenThousands),
    ];
    for (value, tier) in cases {
        trade.total_value = value;
        assert_eq!(trade.value_tier(), tier);
    }
}

#[test]
fn trade_values_are_kept_as_given() {
    let trade = Trade {
        timestamp: "23:59:60".to_string(),
        trade_type: "Live-Trade".to_string(),
        action: Action::Sell,
        username: " spaced name ".to_string(),
        amount: 123_456_789,
        coin_symbol: "bTc".to_string(),
        total_value: 5,
        price: 987_654_321_000,
    };
    let mut ledger = Ledger::new(Vec::new());
    ledger.ingest(trade.clone());
    assert_eq!(ledger.snapshot_log()[0], trade);
    assert_eq!(trade.clone(), trade);
}
