//! The captions of the dashboard's panels, composed from the view state.

use vstd::prelude::*;
use vstd::string::StringExecFns;

use crate::view_state::{InputMode, ViewState};

verus! {

/// The hint that tells the user which keys the current mode takes.
pub open spec fn mode_hint(mode: InputMode) -> Seq<char> {
    match mode {
        InputMode::Normal => "(Press 'e' or '/' to edit, Enter to search)"@,
        InputMode::Editing => "(ESC to cancel, Enter to search)"@,
    }
}

/// The caption of the search box: what is being searched for, if anything,
/// then the mode's hint and the keys that always work.
pub open spec fn search_title_of(symbol: Option<Seq<char>>, mode: InputMode) -> Seq<char> {
    (match symbol {
        Some(symbol) => "Searching: "@ + symbol,
        None => "Search Symbol"@,
    }) + " "@ + mode_hint(mode) + " (q:quit, t:type)"@
}

/// The name under which the type filter is shown: its tag, or `All` where
/// there is none.
pub open spec fn filter_name_of(type_filter: Option<Seq<char>>) -> Seq<char> {
    match type_filter {
        Some(tag) => tag,
        None => "All"@,
    }
}

/// The caption of the trade table: the searched symbol, if any, and the type
/// filter.
pub open spec fn trades_title_of(
    symbol: Option<Seq<char>>,
    type_filter: Option<Seq<char>>,
) -> Seq<char> {
    (match symbol {
        Some(symbol) => "Trades for "@ + symbol,
        None => "Trades"@,
    }) + " (Type: "@ + filter_name_of(type_filter) + ")"@
}

/// The caption of the balance table for a searched symbol.
pub open spec fn balances_title_of(symbol: Seq<char>) -> Seq<char> {
    "Balances for "@ + symbol
}

/// The hint for `mode`.
pub fn hint_for(mode: InputMode) -> (hint: &'static str)
    ensures
        hint@ == mode_hint(mode),
{
    match mode {
        InputMode::Normal => "(Press 'e' or '/' to edit, Enter to search)",
        InputMode::Editing => "(ESC to cancel, Enter to search)",
    }
}

/// The caption of the balance table for `symbol`.
pub fn balances_title(symbol: &str) -> (title: String)
    ensures
        title@ == balances_title_of(symbol@),
{
    let mut title: String = String::from_str("Balances for ");
    title.append(symbol);
    title
}

impl ViewState {
    /// The caption of the search box.
    pub fn search_title(&self) -> (title: String)
        ensures
            title@ == search_title_of(self@.active_search_symbol, self@.input_mode),
    {
        let mut title: String = match &self.active_search_symbol {
            Some(symbol) => {
                let mut base: String = String::from_str("Searching: ");
                base.append(symbol.as_str());
                base
            },
            None => String::from_str("Search Symbol"),
        };
        title.append(" ");
        title.append(hint_for(self.input_mode));
        title.append(" (q:quit, t:type)");
        title
    }

    /// The caption of the trade table.
    pub fn trades_title(&self) -> (title: String)
        ensures
            title@ == trades_title_of(self@.active_search_symbol, self@.type_filter),
    {
        let mut title: String = match &self.active_search_symbol {
            Some(symbol) => {
                let mut base: String = String::from_str("Trades for ");
                base.append(symbol.as_str());
                base
            },
            None => String::from_str("Trades"),
        };
        title.append(" (Type: ");
        match &self.type_filter {
            Some(tag) => {
                title.append(tag.as_str());
            },
            None => {
                title.append("All");
            },
        }
        title.append(")");
        title
    }
}

} // verus!
