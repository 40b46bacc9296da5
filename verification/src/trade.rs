//! The trade record: one observed market action, immutable once created.
//!
//! Quantities are signed fixed-point counts of `UNITS_PER_WHOLE`-ths. They are
//! stored as the feed gave them and never recomputed from one another.

use vstd::prelude::*;
use vstd::string::StringExecFns;

verus! {

/// How many base units make one whole coin or one whole unit of the quote
/// currency.
pub const UNITS_PER_WHOLE: i64 = 100_000_000;

/// What a trade did to the trader's holding.
#[derive(Clone, Copy, Debug, PartialEq, Eq, Structural)]
pub enum Action {
    Buy,
    Sell,
    /// Any action the feed names that is neither: it is logged and moves no
    /// balance.
    Other,
}

impl Action {
    /// The action that the feed's tag stands for. Tags are matched exactly.
    pub open spec fn of_tag(tag: Seq<char>) -> Action {
        if tag == "BUY"@ {
            Action::Buy
        } else if tag == "SELL"@ {
            Action::Sell
        } else {
            Action::Other
        }
    }

    /// Reads the feed's tag for an action.
    pub fn from_tag(tag: &str) -> (a: Action)
        ensures
            a == Action::of_tag(tag@),
    {
        let tag: String = String::from_str(tag);
        let buy: String = String::from_str("BUY");
        let sell: String = String::from_str("SELL");
        if tag == buy {
            Action::Buy
        } else if tag == sell {
            Action::Sell
        } else {
            Action::Other
        }
    }

    /// The tag under which the action is shown and stored.
    pub open spec fn tag_of(self) -> Seq<char> {
        match self {
            Action::Buy => "BUY"@,
            Action::Sell => "SELL"@,
            Action::Other => "OTHER"@,
        }
    }

    /// The tag under which the action is shown and stored.
    pub fn tag(self) -> (tag: &'static str)
        ensures
            tag@ == self.tag_of(),
    {
        match self {
            Action::Buy => "BUY",
            Action::Sell => "SELL",
            Action::Other => "OTHER",
        }
    }

    /// Reading an action's own tag gives the action back.
    pub proof fn lemma_tag_round_trip(self)
        ensures
            Action::of_tag(self.tag_of()) == self,
    {
        reveal_strlit("BUY");
        reveal_strlit("SELL");
        reveal_strlit("OTHER");
        assert("BUY"@.len() == 3);
        assert("SELL"@.len() == 4);
        assert("OTHER"@.len() == 5);
    }

    /// The sign with which a trade's amount enters the trader's balance.
    pub open spec fn sign(self) -> int {
        match self {
            Action::Buy => 1,
            Action::Sell => -1,
            Action::Other => 0,
        }
    }
}

/// One trade as the ledger stores it.
#[derive(Debug, PartialEq, Eq)]
pub struct Trade {
    /// Display-formatted time of arrival.
    pub timestamp: String,
    /// The feed channel the trade came in on.
    pub trade_type: String,
    pub action: Action,
    pub username: String,
    /// Quantity traded, in base units of the coin.
    pub amount: i64,
    /// Asset ticker. Searches compare it without regard to case.
    pub coin_symbol: String,
    /// Notional in base units of the quote currency.
    pub total_value: i64,
    /// Unit price in base units of the quote currency.
    pub price: i64,
}

/// The mathematical content of a `Trade`.
pub struct TradeView {
    pub timestamp: Seq<char>,
    pub trade_type: Seq<char>,
    pub action: Action,
    pub username: Seq<char>,
    pub amount: i64,
    pub coin_symbol: Seq<char>,
    pub total_value: i64,
    pub price: i64,
}

impl View for Trade {
    type V = TradeView;

    open spec fn view(&self) -> TradeView {
        TradeView {
            timestamp: self.timestamp@,
            trade_type: self.trade_type@,
            action: self.action,
            username: self.username@,
            amount: self.amount,
            coin_symbol: self.coin_symbol@,
            total_value: self.total_value,
            price: self.price,
        }
    }
}

impl Clone for Trade {
    fn clone(&self) -> (t: Self)
        ensures
            t == *self,
    {
        Trade {
            timestamp: self.timestamp.clone(),
            trade_type: self.trade_type.clone(),
            action: self.action,
            username: self.username.clone(),
            amount: self.amount,
            coin_symbol: self.coin_symbol.clone(),
            total_value: self.total_value,
            price: self.price,
        }
    }
}

/// The views of a sequence of trades, in the same order.
pub open spec fn views(trades: Seq<Trade>) -> Seq<TradeView> {
    trades.map_values(|t: Trade| t@)
}

impl TradeView {
    /// Whether the trade is one of `user` in `coin`. Both are compared
    /// exactly.
    pub open spec fn concerns(self, user: Seq<char>, coin: Seq<char>) -> bool {
        self.username == user && self.coin_symbol == coin
    }

    /// What the trade adds to its trader's balance in its coin: the amount
    /// for a buy, its negation for a sell, nothing otherwise.
    pub open spec fn delta(self) -> int {
        self.action.sign() * self.amount
    }
}

/// How much a trade's notional stands out, by powers of ten of whole units.
#[derive(Clone, Copy, Debug, PartialEq, Eq, Structural)]
pub enum ValueTier {
    /// Below ten whole units.
    Plain,
    /// From ten whole units.
    Tens,
    /// From a hundred whole units.
    Hundreds,
    /// From a thousand whole units.
    Thousands,
    /// From ten thousand whole units.
    TenThousands,
}

/// The tier of a notional of `total_value` base units.
pub open spec fn tier_of(total_value: int) -> ValueTier {
    if total_value >= 10_000 * UNITS_PER_WHOLE {
        ValueTier::TenThousands
    } else if total_value >= 1_000 * UNITS_PER_WHOLE {
        ValueTier::Thousands
    } else if total_value >= 100 * UNITS_PER_WHOLE {
        ValueTier::Hundreds
    } else if total_value >= 10 * UNITS_PER_WHOLE {
        ValueTier::Tens
    } else {
        ValueTier::Plain
    }
}

impl Trade {
    /// The tier by which a renderer emphasises this trade's row.
    pub fn value_tier(&self) -> (tier: ValueTier)
        ensures
            tier == tier_of(self.total_value as int),
    {
        if self.total_value >= 10_000 * UNITS_PER_WHOLE {
            ValueTier::TenThousands
        } else if self.total_value >= 1_000 * UNITS_PER_WHOLE {
            ValueTier::Thousands
        } else if self.total_value >= 100 * UNITS_PER_WHOLE {
            ValueTier::Hundreds
        } else if self.total_value >= 10 * UNITS_PER_WHOLE {
            ValueTier::Tens
        } else {
            ValueTier::Plain
        }
    }
}

} // verus!
