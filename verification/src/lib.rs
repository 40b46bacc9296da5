//! A live market-event dashboard engine: an append-only trade ledger with
//! derived balances, filtered and searched views over it, and the scroll
//! window arithmetic a renderer needs to show a bounded slice of the log.
//!
//! - `trade`: the trade record and its fixed-point quantities.
//! - `ledger`: the log and the balance table derived from it.
//! - `filter`: which trades are visible under a type filter and a search.
//! - `ranking`: who holds a searched symbol, largest holding first.
//! - `scroll`: clamping, stepping and the scrollbar's geometry.
//! - `view_state`: the search buffer, the filter and the key bindings.
//! - `feed`: what the event source hands over.
//! - `dashboard`: ledger and view state behind the event loop's entry points.
//! - `layout`: rows and scrollbar track of an area of the screen.
//! - `titles`: the captions of the panels.
//! - `text`: case folding, as the standard library does it.

pub mod dashboard;
pub mod feed;
pub mod filter;
pub mod layout;
pub mod ledger;
pub mod ranking;
pub mod scroll;
pub mod text;
pub mod titles;
pub mod trade;
pub mod view_state;
