//! The ingestion boundary: what the event source hands over, and how a
//! decoded message becomes a trade record.
//!
//! The event source decodes frames and queues what it decoded; the engine
//! drains the queue without waiting. Here are the plain values that cross
//! that boundary and the rules that turn them into trades.

use vstd::prelude::*;
use vstd::string::StringExecFns;

use crate::trade::{Action, Trade, TradeView};

verus! {

/// The payload of a message that reports a trade, in the feed's vocabulary.
/// A field that the message did not carry, or carried in another type, is
/// `None`.
#[derive(Debug, PartialEq, Eq)]
pub struct TradeData {
    /// The feed's tag for what the trade did.
    pub action: Option<String>,
    pub username: Option<String>,
    pub amount: Option<i64>,
    pub coin_symbol: Option<String>,
    pub total_value: Option<i64>,
    pub price: Option<i64>,
}

/// One decoded message of the feed.
#[derive(Debug, PartialEq, Eq)]
pub struct Message {
    /// The channel tag of the message, where it has one.
    pub kind: Option<String>,
    /// What the message reports, where it reports a trade.
    pub data: Option<TradeData>,
}

/// What one non-blocking look at the queue found.
#[derive(Debug, PartialEq, Eq)]
pub enum FeedEvent {
    /// The oldest queued trade.
    Trade(Trade),
    /// Nothing is queued.
    Idle,
    /// The event source has gone and nothing is queued.
    Closed,
}

/// The channel tag of keep-alive messages.
pub open spec fn ping_tag() -> Seq<char> {
    "ping"@
}

/// A text field as the trade record takes it: empty where it is missing.
pub open spec fn text_or_empty(field: Option<String>) -> Seq<char> {
    match field {
        Some(text) => text@,
        None => Seq::empty(),
    }
}

/// A number field as the trade record takes it: zero where it is missing.
pub open spec fn number_or_zero(field: Option<i64>) -> i64 {
    match field {
        Some(number) => number,
        None => 0,
    }
}

/// Whether `message` reports a trade: keep-alives never do, and neither does
/// a message without a payload.
pub open spec fn reports_trade(message: Message) -> bool {
    text_or_empty(message.kind) != ping_tag() && message.data is Some
}

/// The trade that a message of channel `kind` with payload `data` reports,
/// stamped `timestamp`.
pub open spec fn reported_trade(
    kind: Option<String>,
    data: TradeData,
    timestamp: Seq<char>,
) -> TradeView {
    TradeView {
        timestamp,
        trade_type: text_or_empty(kind),
        action: Action::of_tag(text_or_empty(data.action)),
        username: text_or_empty(data.username),
        amount: number_or_zero(data.amount),
        coin_symbol: text_or_empty(data.coin_symbol),
        total_value: number_or_zero(data.total_value),
        price: number_or_zero(data.price),
    }
}

/// The local wall-clock time as `chrono::Local::now()` gives it, formatted
/// by `%H:%M:%S`. Trusted, and nothing is claimed of the text: it depends on
/// the clock and on the machine's time zone.
#[verifier::external_body]
fn local_time_text() -> String {
    chrono::Local::now().format("%H:%M:%S").to_string()
}

/// The text of `field`, and the empty text where it is missing.
fn take_text(field: Option<String>) -> (text: String)
    ensures
        text@ == text_or_empty(field),
{
    match field {
        Some(text) => text,
        None => String::new(),
    }
}

/// The number in `field`, and zero where it is missing.
fn take_number(field: Option<i64>) -> (number: i64)
    ensures
        number == number_or_zero(field),
{
    match field {
        Some(number) => number,
        None => 0,
    }
}

/// Whether `message` reports a trade.
pub fn is_trade_report(message: &Message) -> (r: bool)
    ensures
        r == reports_trade(*message),
{
    let ping: String = String::from_str("ping");
    let is_ping: bool = match &message.kind {
        Some(kind) => *kind == ping,
        None => false,
    };
    proof {
        // A missing tag reads as empty, which a keep-alive's tag is not.
        reveal_strlit("ping");
        assert(ping_tag().len() == 4);
    }
    !is_ping && message.data.is_some()
}

/// The trade that `message` reports, stamped `timestamp`, or none where it
/// reports no trade. Missing text fields read as empty and missing numbers
/// as zero; the action is read from its tag.
pub fn trade_of_message(message: Message, timestamp: String) -> (trade: Option<Trade>)
    ensures
        trade is Some <==> reports_trade(message),
        trade matches Some(t) ==> t@ == reported_trade(message.kind, message.data->0, timestamp@),
{
    if !is_trade_report(&message) {
        return None;
    }
    let Message { kind, data } = message;
    match data {
        None => None,
        Some(data) => {
            let tag: String = take_text(data.action);
            Some(
                Trade {
                    timestamp,
                    trade_type: take_text(kind),
                    action: Action::from_tag(tag.as_str()),
                    username: take_text(data.username),
                    amount: take_number(data.amount),
                    coin_symbol: take_text(data.coin_symbol),
                    total_value: take_number(data.total_value),
                    price: take_number(data.price),
                },
            )
        },
    }
}

/// The trade that `message` reports, stamped with the local time of this
/// call, or none where it reports no trade. The clock is read only for a
/// message that reports one.
pub fn stamp_message(message: Message) -> (trade: Option<Trade>)
    ensures
        trade is Some <==> reports_trade(message),
        trade matches Some(t) ==> t@ == reported_trade(
            message.kind,
            message.data->0,
            t@.timestamp,
        ),
{
    if !is_trade_report(&message) {
        return None;
    }
    let timestamp: String = local_time_text();
    trade_of_message(message, timestamp)
}

} // verus!
