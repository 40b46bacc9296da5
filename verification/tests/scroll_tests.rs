use tradeboard::scroll::{
    clamp_offset, follow_arrival, page_down, page_up, scroll_down, scroll_up, scrollbar,
    track_cells, window, Scrollbar, Window, PAGE_STEPS,
};

#[test]
fn clamp_forces_zero_when_there_are_no_rows() {
    assert_eq!(clamp_offset(0, 0, 10), 0);
    assert_eq!(clamp_offset(7, 0, 10), 0);
    assert_eq!(clamp_offset(usize::MAX, 0, 0), 0);
}

#[test]
fn clamp_brings_offset_down_to_last_row() {
    assert_eq!(clamp_offset(5, 3, 10), 2);
    assert_eq!(clamp_offset(3, 3, 10), 2);
    assert_eq!(clamp_offset(2, 3, 10), 2);
    assert_eq!(clamp_offset(1, 3, 10), 1);
    assert_eq!(clamp_offset(9, 3, 3), 2);
}

#[test]
fn clamp_never_scrolls_past_the_last_screenful() {
    assert_eq!(clamp_offset(85, 100, 20), 80);
    assert_eq!(clamp_offset(81, 100, 20), 80);
    assert_eq!(clamp_offset(80, 100, 20), 80);
    assert_eq!(clamp_offset(79, 100, 20), 79);
    assert_eq!(clamp_offset(0, 100, 20), 0);
    assert_eq!(clamp_offset(500, 100, 99), 1);
}

#[test]
fn clamp_with_no_room_on_screen_stops_at_last_row() {
    assert_eq!(clamp_offset(50, 10, 0), 9);
    assert_eq!(clamp_offset(4, 10, 0), 4);
}

#[test]
fn clamp_bounds_hold_over_a_grid() {
    for n in 0usize..25 {
        for visible in 0usize..25 {
            for offset in 0usize..40 {
                let r = clamp_offset(offset, n, visible);
                assert!(r <= n.saturating_sub(1));
                assert!(r <= offset);
                if n > visible {
                    assert!(r <= n - visible);
                }
                assert_eq!(clamp_offset(r, n, visible), r);
            }
        }
    }
}

#[test]
fn window_is_empty_without_rows() {
    assert_eq!(window(12, 0, 5), Window { start: 0, len: 0 });
}

#[test]
fn window_shows_a_full_screen_when_rows_overflow() {
    assert_eq!(window(0, 100, 20), Window { start: 0, len: 20 });
    assert_eq!(window(30, 100, 20), Window { start: 30, len: 20 });
    assert_eq!(window(95, 100, 20), Window { start: 80, len: 20 });
}

#[test]
fn window_shows_what_is_left_when_rows_fit() {
    assert_eq!(window(0, 5, 20), Window { start: 0, len: 5 });
    assert_eq!(window(3, 5, 20), Window { start: 3, len: 2 });
    assert_eq!(window(9, 5, 20), Window { start: 4, len: 1 });
    assert_eq!(window(2, 5, 5), Window { start: 2, len: 3 });
    assert_eq!(window(2, 5, 0), Window { start: 2, len: 0 });
}

#[test]
fn scroll_up_stops_at_the_top() {
    assert_eq!(scroll_up(0), 0);
    assert_eq!(scroll_up(1), 0);
    assert_eq!(scroll_up(42), 41);
}

#[test]
fn scroll_down_pulls_a_stray_offset_back() {
    assert_eq!(scroll_down(85, 100, 20), 80);
}

#[test]
fn scroll_down_advances_by_one_until_the_last_screenful() {
    assert_eq!(scroll_down(0, 100, 20), 1);
    assert_eq!(scroll_down(79, 100, 20), 80);
    assert_eq!(scroll_down(80, 100, 20), 80);
}

#[test]
fn scroll_down_when_rows_fit_stops_at_last_row() {
    assert_eq!(scroll_down(0, 5, 20), 1);
    assert_eq!(scroll_down(3, 5, 20), 4);
    assert_eq!(scroll_down(4, 5, 20), 4);
    assert_eq!(scroll_down(0, 5, 5), 1);
    assert_eq!(scroll_down(4, 5, 5), 4);
}

#[test]
fn scroll_down_leaves_an_offset_on_or_past_the_last_row() {
    assert_eq!(scroll_down(99, 100, 20), 99);
    assert_eq!(scroll_down(150, 100, 20), 150);
    assert_eq!(scroll_down(0, 0, 20), 0);
    assert_eq!(scroll_down(3, 0, 20), 3);
    assert_eq!(scroll_down(0, 1, 20), 0);
}

#[test]
fn scroll_down_with_no_room_on_screen_walks_to_last_row() {
    assert_eq!(scroll_down(0, 10, 0), 1);
    assert_eq!(scroll_down(8, 10, 0), 9);
    assert_eq!(scroll_down(9, 10, 0), 9);
}

#[test]
fn page_up_is_ten_steps() {
    assert_eq!(PAGE_STEPS, 10);
    assert_eq!(page_up(25), 15);
    assert_eq!(page_up(10), 0);
    assert_eq!(page_up(4), 0);
    assert_eq!(page_up(0), 0);
    let mut stepped = 25usize;
    for _ in 0..10 {
        stepped = scroll_up(stepped);
    }
    assert_eq!(page_up(25), stepped);
}

#[test]
fn page_down_is_ten_steps() {
    assert_eq!(page_down(0, 100, 20), 10);
    assert_eq!(page_down(75, 100, 20), 80);
    assert_eq!(page_down(85, 100, 20), 80);
    assert_eq!(page_down(99, 100, 20), 99);
    assert_eq!(page_down(0, 5, 20), 4);
    assert_eq!(page_down(0, 0, 20), 0);
    for start in 0usize..30 {
        let mut stepped = start;
        for _ in 0..10 {
            stepped = scroll_down(stepped, 23, 7);
        }
        assert_eq!(page_down(start, 23, 7), stepped);
    }
}

#[test]
fn arrival_moves_only_a_passive_viewer_away_from_the_top() {
    assert_eq!(follow_arrival(0, true), 0);
    assert_eq!(follow_arrival(0, false), 0);
    assert_eq!(follow_arrival(5, true), 6);
    assert_eq!(follow_arrival(5, false), 5);
}

#[test]
fn scrollbar_is_absent_when_rows_fit_or_track_is_empty() {
    assert_eq!(scrollbar(10, 10, 0, 8), None);
    assert_eq!(scrollbar(5, 10, 0, 8), None);
    assert_eq!(scrollbar(0, 0, 0, 8), None);
    assert_eq!(scrollbar(100, 20, 0, 0), None);
}

#[test]
fn scrollbar_thumb_is_proportional() {
    assert_eq!(
        scrollbar(100, 20, 0, 20),
        Some(Scrollbar { thumb_pos: 0, thumb_height: 4 })
    );
    assert_eq!(
        scrollbar(100, 20, 40, 20),
        Some(Scrollbar { thumb_pos: 8, thumb_height: 4 })
    );
    assert_eq!(
        scrollbar(100, 20, 80, 20),
        Some(Scrollbar { thumb_pos: 16, thumb_height: 4 })
    );
}

#[test]
fn scrollbar_rounds_to_nearest_with_halves_up() {
    // 1/4 of a 2-row track is half a row, which rounds up to one.
    assert_eq!(
        scrollbar(4, 1, 0, 2),
        Some(Scrollbar { thumb_pos: 0, thumb_height: 1 })
    );
    // 3/10 of a 10-row track is three rows; 5/7 of the 7 rows of travel is five.
    assert_eq!(
        scrollbar(10, 3, 5, 10),
        Some(Scrollbar { thumb_pos: 5, thumb_height: 3 })
    );
    // 2/7 of the 7 rows of travel is exactly two.
    assert_eq!(
        scrollbar(10, 3, 2, 10),
        Some(Scrollbar { thumb_pos: 2, thumb_height: 3 })
    );
    // 10/30 of 9 rows is three; 1/20 of the 6 rows of travel is 0.3, which rounds down.
    assert_eq!(
        scrollbar(30, 10, 1, 9),
        Some(Scrollbar { thumb_pos: 0, thumb_height: 3 })
    );
    // 2/20 of the 6 rows of travel is 0.6, which rounds up.
    assert_eq!(
        scrollbar(30, 10, 2, 9),
        Some(Scrollbar { thumb_pos: 1, thumb_height: 3 })
    );
}

#[test]
fn scrollbar_thumb_is_at_least_one_row() {
    assert_eq!(
        scrollbar(1_000_000, 1, 0, 5),
        Some(Scrollbar { thumb_pos: 0, thumb_height: 1 })
    );
    assert_eq!(
        scrollbar(1_000_000, 0, 999_999, 5),
        Some(Scrollbar { thumb_pos: 4, thumb_height: 1 })
    );
}

#[test]
fn scrollbar_clamps_a_stray_offset_to_the_end_of_travel() {
    assert_eq!(
        scrollbar(100, 20, 5_000, 20),
        Some(Scrollbar { thumb_pos: 16, thumb_height: 4 })
    );
    assert_eq!(
        scrollbar(usize::MAX, usize::MAX - 1, usize::MAX, u16::MAX),
        Some(Scrollbar { thumb_pos: 0, thumb_height: u16::MAX })
    );
}

#[test]
fn scrollbar_bounds_hold_over_a_grid() {
    for n in 1usize..40 {
        for visible in 0..n {
            for track in 1u16..25 {
                let mut last = 0u16;
                for offset in 0..(n + 3) {
                    let bar = scrollbar(n, visible, offset, track).unwrap();
                    assert!(bar.thumb_height >= 1);
                    assert!(bar.thumb_pos + bar.thumb_height <= track);
                    assert!(bar.thumb_pos >= last);
                    last = bar.thumb_pos;
                }
            }
        }
    }
}

#[test]
fn track_cells_are_filled_under_the_thumb() {
    let bar = Scrollbar { thumb_pos: 2, thumb_height: 3 };
    assert_eq!(
        track_cells(&bar, 8),
        vec![false, false, true, true, true, false, false, false]
    );
    assert!(!bar.is_filled(1));
    assert!(bar.is_filled(2));
    assert!(bar.is_filled(4));
    assert!(!bar.is_filled(5));
    assert_eq!(track_cells(&bar, 0), Vec::<bool>::new());
    let wide = Scrollbar { thumb_pos: u16::MAX, thumb_height: u16::MAX };
    assert!(wide.is_filled(u16::MAX));
    assert!(!wide.is_filled(u16::MAX - 1));
}
