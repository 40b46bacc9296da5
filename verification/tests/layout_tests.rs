use tradeboard::dashboard::Dashboard;
use tradeboard::layout::{
    cursor_cell, rows_in_area, rows_on_terminal, scrollbar_track, Area, Track, CHROME_ROWS,
    TABLE_FRAME_ROWS,
};
use tradeboard::scroll::Scrollbar;
use tradeboard::titles::{balances_title, hint_for};
use tradeboard::trade::{Action, Trade};
use tradeboard::view_state::{InputMode, ViewState};

fn layout_trade(user: &str) -> Trade {
    Trade {
        timestamp: "11:11:11".to_string(),
        trade_type: "live-trade".to_string(),
        action: Action::Buy,
        username: user.to_string(),
        amount: 1,
        coin_symbol: "COIN".to_string(),
        total_value: 1,
        price: 1,
    }
}

#[test]
fn rows_on_terminal_leave_room_for_the_chrome() {
    assert_eq!(CHROME_ROWS, 5);
    assert_eq!(rows_on_terminal(0), 0);
    assert_eq!(rows_on_terminal(5), 0);
    assert_eq!(rows_on_terminal(6), 1);
    assert_eq!(rows_on_terminal(30), 25);
    assert_eq!(rows_on_terminal(u16::MAX), 65530);
}

#[test]
fn rows_in_area_leave_room_for_border_and_header() {
    assert_eq!(TABLE_FRAME_ROWS, 3);
    let mut area = Area { x: 1, y: 4, width: 80, height: 0 };
    assert_eq!(rows_in_area(area), 0);
    area.height = 3;
    assert_eq!(rows_in_area(area), 0);
    area.height = 4;
    assert_eq!(rows_in_area(area), 1);
    area.height = 20;
    assert_eq!(rows_in_area(area), 17);
}

#[test]
fn track_runs_down_the_last_column_between_the_borders() {
    assert_eq!(
        scrollbar_track(Area { x: 1, y: 4, width: 80, height: 20 }),
        Some(Track { column: 80, top: 5, height: 18 })
    );
    assert_eq!(
        scrollbar_track(Area { x: 0, y: 0, width: 1, height: 3 }),
        Some(Track { column: 0, top: 1, height: 1 })
    );
}

#[test]
fn track_is_absent_where_nothing_is_left_between_the_borders() {
    assert_eq!(scrollbar_track(Area { x: 1, y: 4, width: 80, height: 2 }), None);
    assert_eq!(scrollbar_track(Area { x: 1, y: 4, width: 80, height: 1 }), None);
    assert_eq!(scrollbar_track(Area { x: 1, y: 4, width: 80, height: 0 }), None);
    assert_eq!(scrollbar_track(Area { x: 1, y: 4, width: 0, height: 20 }), None);
}

#[test]
fn track_saturates_at_the_largest_coordinate() {
    assert_eq!(
        scrollbar_track(Area { x: u16::MAX - 1, y: u16::MAX, width: 10, height: 10 }),
        Some(Track { column: u16::MAX - 1, top: u16::MAX, height: 8 })
    );
    assert_eq!(
        scrollbar_track(Area { x: u16::MAX, y: 0, width: 10, height: 10 }),
        None
    );
}

#[test]
fn cursor_is_drawn_one_cell_inside_the_search_box() {
    let area = Area { x: 1, y: 1, width: 78, height: 3 };
    assert_eq!(cursor_cell(area, 0), Some((2, 2)));
    assert_eq!(cursor_cell(area, 7), Some((9, 2)));
    assert_eq!(cursor_cell(area, 65533), Some((u16::MAX, 2)));
    assert_eq!(cursor_cell(area, 65534), None);
    assert_eq!(cursor_cell(area, usize::MAX), None);
    assert_eq!(cursor_cell(Area { x: u16::MAX, y: 1, width: 1, height: 1 }, 0), None);
    assert_eq!(cursor_cell(Area { x: 0, y: u16::MAX, width: 1, height: 1 }, 0), None);
    assert_eq!(
        cursor_cell(Area { x: u16::MAX - 1, y: u16::MAX - 1, width: 1, height: 1 }, 0),
        Some((u16::MAX, u16::MAX))
    );
}

#[test]
fn frame_in_an_area_uses_its_rows_and_track() {
    let mut newest_first: Vec<Trade> = Vec::new();
    for i in 0..100 {
        newest_first.push(layout_trade(&format!("u{}", i)));
    }
    let mut board = Dashboard::new(newest_first.clone());
    // 23 rows high: 20 rows of trades, and a track of 21 rows.
    let area = Area { x: 1, y: 4, width: 80, height: 23 };
    let frame = board.frame_in(area);
    assert_eq!(frame.rows, newest_first[0..20].to_vec());
    assert_eq!(frame.total, 100);
    assert_eq!(
        frame.scrollbar,
        Some(Scrollbar { thumb_pos: 0, thumb_height: 4 })
    );
    assert_eq!(frame, board.frame(20, 21));
    // Too low for a track: rows are still cut, and no scrollbar is drawn.
    let low = Area { x: 1, y: 4, width: 80, height: 2 };
    let frame = board.frame_in(low);
    assert_eq!(frame.rows, Vec::new());
    assert_eq!(frame.scrollbar, None);
}

#[test]
fn hints_name_the_keys_of_each_mode() {
    assert_eq!(
        hint_for(InputMode::Normal),
        "(Press 'e' or '/' to edit, Enter to search)"
    );
    assert_eq!(hint_for(InputMode::Editing), "(ESC to cancel, Enter to search)");
}

#[test]
fn search_title_names_the_symbol_and_the_mode() {
    let mut state = ViewState::new();
    assert_eq!(
        state.search_title(),
        "Search Symbol (Press 'e' or '/' to edit, Enter to search) (q:quit, t:type)"
    );
    state.active_search_symbol = Some("BTC".to_string());
    state.input_mode = InputMode::Editing;
    assert_eq!(
        state.search_title(),
        "Searching: BTC (ESC to cancel, Enter to search) (q:quit, t:type)"
    );
}

#[test]
fn trades_title_names_the_symbol_and_the_filter() {
    let mut state = ViewState::new();
    assert_eq!(state.trades_title(), "Trades (Type: All)");
    state.toggle_trade_type_filter();
    assert_eq!(state.trades_title(), "Trades (Type: all-trades)");
    state.toggle_trade_type_filter();
    state.active_search_symbol = Some("DOGE".to_string());
    assert_eq!(state.trades_title(), "Trades for DOGE (Type: live-trade)");
}

#[test]
fn balances_title_names_the_symbol() {
    assert_eq!(balances_title("BTC"), "Balances for BTC");
    assert_eq!(balances_title(""), "Balances for ");
}

#[test]
fn action_tags_read_back_as_the_action() {
    for action in [Action::Buy, Action::Sell, Action::Other] {
        assert_eq!(Action::from_tag(action.tag()), action);
    }
    assert_eq!(Action::Buy.tag(), "BUY");
    assert_eq!(Action::Sell.tag(), "SELL");
    assert_eq!(Action::Other.tag(), "OTHER");
}
