use gitpanes::dialog::ConfirmDialog;
use gitpanes::encoding::base64_encode;
use gitpanes::filter::ListFilter;
use gitpanes::input::Key;
use gitpanes::messages::status_message;
use gitpanes::layout::{auto_message_border, bar_x, detail_border_positions, detail_cell_bounds, drag_detail_border, detail_min_cells, files_auto_cells, msg_auto_cells, visible_rows, Rect};
use gitpanes::scroll::{clamp_scroll, has_counter, max_scroll_lines};
use gitpanes::sorting::SortOrder;

#[test]
fn sort_order_cycles_through_all_modes() {
    let mut order = SortOrder::Alphabetical;
    let mut labels = Vec::new();
    for _ in 0..3 {
        labels.push(order.label());
        order = order.next();
    }
    assert_eq!(labels, ["A-Z", "Z-A", "Dirty"]);
    assert_eq!(order, SortOrder::Alphabetical);
}

#[test]
fn msg_auto_cells_follows_lines_with_cap() {
    assert_eq!(msg_auto_cells(1, 30), 3);
    assert_eq!(msg_auto_cells(4, 30), 6);
    assert_eq!(msg_auto_cells(50, 30), 12);
}

#[test]
fn auto_cell_helpers_stay_inside_u16() {
    assert_eq!(msg_auto_cells(u16::MAX, 100), 40);
    assert_eq!(msg_auto_cells(u16::MAX, 30), 12);
    assert_eq!(msg_auto_cells(1, u16::MAX), 3);
    assert_eq!(files_auto_cells(30, u16::MAX), 32);
    assert_eq!(files_auto_cells(0, 0), 3);
}

#[test]
fn files_auto_cells_reserves_a_row_per_file_with_cap() {
    assert_eq!(files_auto_cells(2, 60), 4, "two files, two rows");
    assert_eq!(files_auto_cells(30, 60), 18, "capped at 30% of the axis");
    assert_eq!(files_auto_cells(0, 60), 3, "an empty list keeps one row");
    assert_eq!(files_auto_cells(9, 10), 3, "never more than the axis allows");
    assert_eq!(files_auto_cells(usize::MAX, 60), 18);
    assert_eq!(files_auto_cells(5, 0), 3);
}

#[test]
fn detail_border_positions_tracks_loaded_blocks() {
    let graph = Rect::new(0, 0, 20, 40);
    let message = Rect::new(0, 40, 20, 6);
    let files = Rect::new(0, 46, 20, 19);
    let diff = Rect::new(0, 65, 20, 35);
    let [b0, b1, b2] = detail_border_positions(graph, message, files, diff, true);
    assert_eq!(b0, Some(40));
    assert_eq!(b1, Some(46));
    assert_eq!(b2, Some(65));
    let [_, b1n, b2n] = detail_border_positions(graph, message, files, Rect::default(), true);
    assert_eq!(b1n, Some(46));
    assert_eq!(b2n, None);
    let [_, b1z, _] = detail_border_positions(graph, Rect::default(), files, diff, true);
    assert_eq!(b1z, None);
}

#[test]
fn detail_panes_keep_their_minimum_cells() {
    assert_eq!(detail_min_cells(100), 3);
    assert_eq!(detail_min_cells(8), 2);
    let [b0, b1, b2] = detail_cell_bounds(40, [0, 20, 40]);
    let min = detail_min_cells(40);
    assert!(b0 >= min && b1 >= b0 + min && b2 >= b1 + min && 40 >= b2 + min);
}

#[test]
fn pane_geometry_helpers() {
    let pane = Rect::new(10, 5, 30, 12);
    assert_eq!(visible_rows(pane), 10);
    assert_eq!(bar_x(pane), 38);
    assert!(pane.contains(10, 5));
    assert!(!pane.contains(40, 5));
}

#[test]
fn scroll_limits_follow_the_wrapped_text() {
    let text = (0..20).map(|_| "x".repeat(60)).collect::<Vec<_>>().join("\n");
    assert_eq!(max_scroll_lines(&text, 12, 82), 10);
    assert_eq!(max_scroll_lines("short", 12, 82), 0);
    assert_eq!(max_scroll_lines(&text, 2, 82), 0);
    assert_eq!(clamp_scroll(&text, Rect::new(0, 0, 82, 12), 500), 10);
    assert_eq!(clamp_scroll(&text, Rect::new(0, 0, 82, 12), 4), 4);
}

#[test]
fn has_counter_spots_seen_over_total_tokens() {
    assert!(has_counter(" Diff 10/60 "));
    assert!(has_counter("60/60"));
    assert!(!has_counter(" Files "));
    assert!(!has_counter(" a/b "));
    assert!(!has_counter(" 10/ "));
    assert!(!has_counter(" /60 "));
}

#[test]
fn base64_matches_the_standard_alphabet_and_padding() {
    assert_eq!(base64_encode(b""), "");
    assert_eq!(base64_encode(b"f"), "Zg==");
    assert_eq!(base64_encode(b"fo"), "Zm8=");
    assert_eq!(base64_encode(b"foo"), "Zm9v");
    assert_eq!(base64_encode(b"foobar"), "Zm9vYmFy");
    assert_eq!(base64_encode(&[0xff, 0xfe, 0xfd]), "//79");
}

#[test]
fn confirming_runs_the_pending_action_once() {
    let mut dialog: ConfirmDialog<u32> = ConfirmDialog::new();
    dialog.show("Remove repo?".to_string(), 7);
    assert!(dialog.visible);
    assert_eq!(dialog.handle_key_event(Key::Char('x')), None);
    assert!(dialog.visible);
    assert_eq!(dialog.handle_key_event(Key::Char('y')), Some(7));
    assert!(!dialog.visible);
    assert_eq!(dialog.handle_key_event(Key::Enter), None);
}

#[test]
fn cancelling_drops_the_pending_action() {
    let mut dialog: ConfirmDialog<&str> = ConfirmDialog::new();
    dialog.show("Discard?".to_string(), "discard");
    assert_eq!(dialog.handle_key_event(Key::Esc), None);
    assert!(!dialog.visible);
    assert!(dialog.message.is_empty());
    assert!(dialog.pending_action.is_none());
}

#[test]
fn list_filter_places_and_steps_the_highlight() {
    let mut f = ListFilter::new();
    let paths: Vec<String> = ["a.rs", "lib.rs", "b.rs", "libs.txt"].iter().map(|s| s.to_string()).collect();
    assert!(!f.is_active());
    assert_eq!(f.selected_match(Some(2)), Some(2), "an inactive filter leaves the highlight");
    f.push('l');
    f.push('I');
    f.rebuild(&paths);
    assert_eq!(f.matches, vec![1, 3]);
    assert_eq!(f.selected_match(Some(2)), Some(3));
    assert_eq!(f.selected_match(Some(0)), Some(1));
    assert_eq!(f.step(Some(3), true), Some(1));
    assert_eq!(f.step(Some(1), false), Some(3));
    assert_eq!(f.step(Some(2), false), Some(1));
    assert_eq!(f.position_of(3), Some(1));
    f.pop();
    f.pop();
    f.rebuild(&paths);
    assert!(f.matches.is_empty());
}

#[test]
fn error_messages_preserve_unicode_and_truncate_by_characters() {
    for message in ["é".repeat(61), "界".repeat(121), "🙂\n".repeat(80)] {
        let displayed = status_message(&message);
        assert!(!displayed.contains('\n'));
        assert!(displayed.chars().count() <= 120);
        if message.chars().count() <= 120 {
            assert_eq!(displayed, message);
        } else {
            assert!(displayed.ends_with("..."));
        }
    }
}

#[test]
fn a_long_message_keeps_its_first_117_characters() {
    let message = format!("{}{}", "a".repeat(117), "b".repeat(10));
    assert_eq!(status_message(&message), format!("{}...", "a".repeat(117)));
    assert_eq!(status_message("line one\nline two"), "line one line two");
    assert_eq!(status_message(&"x".repeat(120)), "x".repeat(120));
    assert_eq!(status_message(""), "");
}

#[test]
fn dragging_a_detail_border_stops_at_the_pane_minimum() {
    let b = detail_cell_bounds(40, [10, 20, 30]);
    assert_eq!(b, [10, 20, 30]);
    assert_eq!(drag_detail_border(40, b, 0, 1), [3, 20, 30]);
    assert_eq!(drag_detail_border(40, b, 0, 19), [17, 20, 30]);
    assert_eq!(drag_detail_border(40, b, 1, 25), [10, 25, 30]);
    assert_eq!(drag_detail_border(40, b, 2, 40), [10, 20, 37]);
    assert_eq!(drag_detail_border(40, b, 7, 5), b);
}

#[test]
fn the_message_border_follows_the_message_length() {
    let b = detail_cell_bounds(40, [10, 20, 30]);
    assert_eq!(auto_message_border(40, b, 1), 13);
    assert_eq!(auto_message_border(40, b, 100), 26);
    assert_eq!(auto_message_border(100, detail_cell_bounds(100, [10, 20, 30]), 100), 27);
}

#[test]
fn steps_and_reselection_stay_on_matching_rows() {
    let mut f = ListFilter::new();
    let paths: Vec<String> = ["x", "ab", "y", "abc", "z", "ab.rs"].iter().map(|s| s.to_string()).collect();
    f.push('a');
    f.rebuild(&paths);
    for start in [None, Some(1), Some(3), Some(5)] {
        for down in [true, false] {
            let next = f.step(start, down).unwrap();
            assert!(f.matches.contains(&next), "{start:?} {down}");
        }
        assert!(f.matches.contains(&f.selected_match(start).unwrap()));
    }
    f.push('q');
    f.rebuild(&paths);
    assert_eq!(f.selected_match(Some(1)), None);
}

#[test]
fn base64_output_length_and_padding_follow_the_input_length() {
    for n in 0..10usize {
        let data: Vec<u8> = (0..n).map(|i| (i * 37 + 5) as u8).collect();
        let out = base64_encode(&data);
        assert_eq!(out.len(), 4 * ((n + 2) / 3));
        let pad = (3 - n % 3) % 3;
        assert_eq!(out.chars().rev().take_while(|c| *c == '=').count(), pad);
    }
}
