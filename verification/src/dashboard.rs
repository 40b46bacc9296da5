//! The engine as the event loop sees it: a ledger and a view state behind
//! three entry points, one for what the feed delivers, one for key presses
//! and one for what a frame shows.
//!
//! The loop itself, with its waiting, drawing and storing, is the caller's.
//! Each entry point takes what the loop has just learnt and says what the
//! loop does next.

use vstd::prelude::*;

use crate::feed::FeedEvent;
use crate::filter::{visible, visible_count, visible_trades};
use crate::layout::{less, rows_in_area, scrollbar_track, track_of, Area, TABLE_FRAME_ROWS};
use crate::ledger::{credited, holding_views, table_of, Holding, HoldingView, Ledger};
use crate::ranking::{holders_of, rank_holders, stable_descending};
use crate::scroll::{
    after_arrival, clamped, follow_arrival, lemma_stepped_down_times, lemma_stepped_up_times,
    scrollbar, thumb_height, thumb_pos, window, window_len, Scrollbar, Window, PAGE_STEPS,
};
use crate::trade::{views, Trade, TradeView};
use crate::view_state::{Flow, InputMode, Key, ViewModel, ViewState};

verus! {

/// What one frame shows.
#[derive(Debug, PartialEq, Eq)]
pub struct Frame {
    /// The rows on screen: a bounded slice of the visible sequence.
    pub rows: Vec<Trade>,
    /// The index in the visible sequence of the first row on screen.
    pub start: usize,
    /// The length of the visible sequence.
    pub total: usize,
    /// Where the scrollbar thumb sits, when there is a scrollbar to draw.
    pub scrollbar: Option<Scrollbar>,
    /// Who holds the searched symbol, when a search is active.
    pub holders: Option<Vec<Holding>>,
}

/// The ledger and the view state, kept together.
pub struct Dashboard {
    ledger: Ledger,
    view: ViewState,
}

impl Dashboard {
    /// The log, newest trade first.
    pub closed spec fn log_view(&self) -> Seq<TradeView> {
        self.ledger.log_view()
    }

    /// The balance table, row by row.
    pub closed spec fn holdings(&self) -> Seq<HoldingView> {
        self.ledger.holdings()
    }

    /// The view state.
    pub closed spec fn model(&self) -> ViewModel {
        self.view@
    }

    /// The visible sequence under the current filter and search.
    pub open spec fn visible_now(&self) -> Seq<TradeView> {
        visible(self.log_view(), self.model().type_filter, self.model().active_search_symbol)
    }

    /// The balance table is that of the log, the cursor stands inside the
    /// search buffer, and the view is not scrolled past the end of the log.
    pub open spec fn wf(&self) -> bool {
        &&& self.holdings() == table_of(self.log_view())
        &&& self.model().wf()
        &&& self.model().scroll_offset <= self.log_view().len()
    }

    /// A dashboard over a loaded history, given newest trade first: the
    /// history is the log, the balances are computed from all of it, and the
    /// view state is empty.
    pub fn new(initial_trades: Vec<Trade>) -> (dashboard: Dashboard)
        ensures
            dashboard.wf(),
            dashboard.log_view() == views(initial_trades@),
            dashboard.model() == (ViewModel {
                search_term: Seq::empty(),
                active_search_symbol: None,
                type_filter: None,
                scroll_offset: 0,
                input_mode: InputMode::Normal,
                cursor_position: 0,
            }),
    {
        let mut ledger: Ledger = Ledger::new(initial_trades);
        ledger.recompute_balances();
        Dashboard { ledger, view: ViewState::new() }
    }

    /// The ledger.
    pub fn ledger(&self) -> (ledger: &Ledger)
        ensures
            ledger.log_view() == self.log_view(),
            ledger.holdings() == self.holdings(),
            self.wf() ==> ledger.wf(),
    {
        &self.ledger
    }

    /// The view state.
    pub fn view(&self) -> (view: &ViewState)
        ensures
            view@ == self.model(),
    {
        &self.view
    }

    /// Takes in what one look at the queue found. A trade is ingested, and a
    /// passive viewer who has scrolled away from the top keeps their rows in
    /// place; an empty queue changes nothing; a closed one ends the loop.
    pub fn on_feed(&mut self, event: FeedEvent) -> (flow: Flow)
        requires
            old(self).wf(),
        ensures
            final(self).wf(),
            match event {
                FeedEvent::Trade(trade) => {
                    &&& final(self).log_view() == seq![trade@] + old(self).log_view()
                    &&& final(self).holdings() == credited(old(self).holdings(), trade@)
                    &&& final(self).model() == old(self).model().scrolled_to(
                        after_arrival(
                            old(self).model().scroll_offset,
                            old(self).model().input_mode == InputMode::Normal,
                        ),
                    )
                    &&& flow == Flow::Continue
                },
                FeedEvent::Idle => {
                    &&& final(self).log_view() == old(self).log_view()
                    &&& final(self).holdings() == old(self).holdings()
                    &&& final(self).model() == old(self).model()
                    &&& flow == Flow::Continue
                },
                FeedEvent::Closed => {
                    &&& final(self).log_view() == old(self).log_view()
                    &&& final(self).holdings() == old(self).holdings()
                    &&& final(self).model() == old(self).model()
                    &&& flow == Flow::Quit
                },
            },
    {
        match event {
            FeedEvent::Trade(trade) => {
                let passive: bool = match self.view.input_mode {
                    InputMode::Normal => true,
                    InputMode::Editing => false,
                };
                self.ledger.ingest(trade);
                let count: usize = self.ledger.len();
                assert(self.view.scroll_offset < count);
                self.view.scroll_offset = follow_arrival(self.view.scroll_offset, passive);
                Flow::Continue
            },
            FeedEvent::Idle => Flow::Continue,
            FeedEvent::Closed => Flow::Quit,
        }
    }

    /// Applies one key press, where `visible_rows` rows fit on screen.
    pub fn handle_key(&mut self, key: Key, visible_rows: usize) -> (flow: Flow)
        requires
            old(self).wf(),
        ensures
            final(self).wf(),
            final(self).log_view() == old(self).log_view(),
            final(self).holdings() == old(self).holdings(),
            final(self).model() == old(self).model().after_key(
                key,
                old(self).visible_now().len() as int,
                visible_rows as int,
            ),
            flow == if old(self).model().quits_on(key) {
                Flow::Quit
            } else {
                Flow::Continue
            },
    {
        let scrolls_down: bool = match self.view.input_mode {
            InputMode::Normal => match key {
                Key::Down => true,
                Key::PageDown => true,
                _ => false,
            },
            InputMode::Editing => false,
        };
        let total: usize = if scrolls_down {
            visible_count(
                self.ledger.snapshot_log(),
                &self.view.type_filter,
                &self.view.active_search_symbol,
            )
        } else {
            0
        };
        proof {
            let offset = self.view@.scroll_offset;
            lemma_stepped_up_times(offset, PAGE_STEPS as nat);
            lemma_stepped_down_times(offset, total as int, visible_rows as int, PAGE_STEPS as nat);
        }
        self.view.handle_key(key, total, visible_rows)
    }

    /// The visible sequence: the log under the current type filter and
    /// search symbol, in log order.
    pub fn get_visible_trades(&self) -> (shown: Vec<Trade>)
        ensures
            views(shown@) == self.visible_now(),
    {
        visible_trades(
            self.ledger.snapshot_log(),
            &self.view.type_filter,
            &self.view.active_search_symbol,
        )
    }

    /// What the next frame shows where `visible_rows` rows fit on screen and
    /// the scrollbar track is `track` rows high. The scroll offset is
    /// clamped against the visible sequence first, and stays clamped.
    pub fn frame(&mut self, visible_rows: usize, track: u16) -> (frame: Frame)
        requires
            old(self).wf(),
        ensures
            final(self).wf(),
            final(self).log_view() == old(self).log_view(),
            final(self).holdings() == old(self).holdings(),
            final(self).model() == old(self).model().scrolled_to(frame.start as int),
            frame.shows(
                old(self).visible_now(),
                old(self).holdings(),
                old(self).model().active_search_symbol,
                old(self).model().scroll_offset,
                visible_rows as int,
                track as int,
            ),
    {
        let mut shown: Vec<Trade> = self.get_visible_trades();
        let ghost all = views(shown@);
        let total: usize = shown.len();
        let w: Window = window(self.view.scroll_offset, total, visible_rows);
        self.view.scroll_offset = w.start;
        shown.truncate(w.start + w.len);
        let rows: Vec<Trade> = shown.split_off(w.start);
        assert(views(rows@) =~= all.subrange(w.start as int, w.start + w.len));
        let bar: Option<Scrollbar> = scrollbar(total, visible_rows, w.start, track);
        let holders: Option<Vec<Holding>> = match &self.view.active_search_symbol {
            None => None,
            Some(symbol) => Some(rank_holders(self.ledger.balances(), symbol)),
        };
        Frame { rows, start: w.start, total, scrollbar: bar, holders }
    }

    /// What the next frame shows in a trade table that fills `area`: as many
    /// rows as the area has below its border and header, with the scrollbar
    /// on the area's track.
    pub fn frame_in(&mut self, area: Area) -> (frame: Frame)
        requires
            old(self).wf(),
        ensures
            final(self).wf(),
            final(self).log_view() == old(self).log_view(),
            final(self).holdings() == old(self).holdings(),
            final(self).model() == old(self).model().scrolled_to(frame.start as int),
            frame.shows(
                old(self).visible_now(),
                old(self).holdings(),
                old(self).model().active_search_symbol,
                old(self).model().scroll_offset,
                less(area.height as int, TABLE_FRAME_ROWS as int),
                track_rows(area),
            ),
    {
        let visible_rows: usize = rows_in_area(area);
        let track: u16 = match scrollbar_track(area) {
            Some(track) => track.height,
            None => 0,
        };
        self.frame(visible_rows, track)
    }
}

/// The height of the scrollbar track of the table in `area`, and zero where
/// it has none.
pub open spec fn track_rows(area: Area) -> int {
    match track_of(area) {
        Some(track) => track.height as int,
        None => 0,
    }
}

impl Frame {
    /// Whether this is the frame of the visible sequence `shown` for a view
    /// scrolled to `offset`, where `visible_rows` rows fit on screen and the
    /// scrollbar track is `track` rows high: the window starts at the clamped
    /// offset, the rows are those of the window, the scrollbar is there when
    /// the rows do not all fit, and the holders are listed when `symbol` is
    /// being searched for.
    pub open spec fn shows(
        self,
        shown: Seq<TradeView>,
        holdings: Seq<HoldingView>,
        symbol: Option<Seq<char>>,
        offset: int,
        visible_rows: int,
        track: int,
    ) -> bool {
        &&& self.total == shown.len()
        &&& self.start == clamped(offset, shown.len() as int, visible_rows)
        &&& views(self.rows@) == shown.subrange(
            self.start as int,
            self.start + window_len(self.start as int, self.total as int, visible_rows),
        )
        &&& self.scrollbar is Some <==> self.total > visible_rows && track > 0
        &&& self.scrollbar matches Some(bar) ==> {
            &&& bar.thumb_height == thumb_height(self.total as int, visible_rows, track)
            &&& bar.thumb_pos == thumb_pos(self.total as int, visible_rows, self.start as int, track)
            &&& bar.thumb_height >= 1
            &&& bar.thumb_pos + bar.thumb_height <= track
        }
        &&& match symbol {
            None => self.holders is None,
            Some(symbol) => self.holders matches Some(rows) && stable_descending(
                holders_of(holdings, symbol),
                holding_views(rows@),
            ),
        }
    }
}

} // verus!
