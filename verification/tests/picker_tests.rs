use picker::picker::{
    layout_split, preview_scroll_line, view_window, Column, Direction, Picker,
    MAX_RETAINED_ITEMS,
};

fn one_column_picker() -> Picker<String> {
    Picker::new(vec![Column::new("path".to_string())], 0)
}

fn push_all(p: &Picker<String>, items: &[&str]) {
    let injector = p.injector();
    for item in items {
        injector
            .push(item.to_string(), vec![item.to_string()])
            .expect("push into a live picker");
    }
}

fn tick_until_settled(p: &mut Picker<String>, want_items: u32) {
    for _ in 0..2000 {
        let (_, running) = p.tick(10);
        if !running && p.item_count == want_items {
            return;
        }
    }
    panic!("matcher did not settle at {} items", want_items);
}

#[test]
fn ingested_items_show_up_after_ticks() {
    let mut p = one_column_picker();
    push_all(&p, &["apple", "banana", "cherry"]);
    tick_until_settled(&mut p, 3);
    assert_eq!(p.item_count, 3);
    assert_eq!(p.matched_count, 3);
}

#[test]
fn selection_reads_the_snapshot() {
    let mut p = one_column_picker();
    push_all(&p, &["only"]);
    tick_until_settled(&mut p, 1);
    assert_eq!(p.selection(), Some(&"only".to_string()));
}

#[test]
fn query_narrows_and_shrinking_tick_clamps_cursor() {
    let mut p = one_column_picker();
    push_all(&p, &["apple", "banana", "cherry"]);
    tick_until_settled(&mut p, 3);
    p.to_end();
    assert_eq!(p.cursor, 2);
    // A pattern nothing matches: the next changing tick shrinks the
    // matched set and must re-clamp the cursor.
    p.update_line("zzzzzz".to_string());
    for _ in 0..2000 {
        let (_, running) = p.tick(10);
        if !running && p.matched_count == 0 {
            break;
        }
    }
    assert_eq!(p.matched_count, 0);
    assert_eq!(p.cursor, 0);
    // Narrow to one match: the cursor stays inside the matched set.
    p.update_line("banana".to_string());
    for _ in 0..2000 {
        let (_, running) = p.tick(10);
        if !running && p.matched_count == 1 {
            break;
        }
    }
    assert_eq!(p.matched_count, 1);
    assert_eq!(p.cursor, 0);
    assert_eq!(p.selection(), Some(&"banana".to_string()));
}

#[test]
fn move_by_wraps_modulo_matched_count() {
    let mut p = one_column_picker();
    p.matched_count = 5;
    p.cursor = 3;
    p.move_by(1, Direction::Forward);
    assert_eq!(p.cursor, 4);
    p.move_by(1, Direction::Forward);
    assert_eq!(p.cursor, 0);
    p.move_by(1, Direction::Backward);
    assert_eq!(p.cursor, 4);
    p.move_by(7, Direction::Forward);
    assert_eq!(p.cursor, 1);
}

#[test]
fn move_round_trip_returns_to_start() {
    let mut p = one_column_picker();
    p.matched_count = 7;
    p.cursor = 5;
    p.move_by(3, Direction::Forward);
    p.move_by(3, Direction::Backward);
    assert_eq!(p.cursor, 5);
    // The round trip is unconditional: even an amount far beyond the
    // matched count wraps cleanly there and back.
    p.matched_count = 2;
    p.cursor = 1;
    p.move_by(4_000_000_000, Direction::Forward);
    p.move_by(4_000_000_000, Direction::Backward);
    assert_eq!(p.cursor, 1);
}

#[test]
fn move_with_no_matches_is_a_no_op() {
    let mut p = one_column_picker();
    assert_eq!(p.matched_count, 0);
    p.move_by(4, Direction::Forward);
    assert_eq!(p.cursor, 0);
    p.move_by(4, Direction::Backward);
    assert_eq!(p.cursor, 0);
}

#[test]
fn paging_moves_by_one_viewport() {
    let mut p = one_column_picker();
    p.matched_count = 100;
    assert_eq!(p.required_size((80, 24)), Some((80, 24)));
    assert_eq!(p.completion_height, 20);
    p.page_down();
    assert_eq!(p.cursor, 20);
    p.page_up();
    assert_eq!(p.cursor, 0);
}

#[test]
fn to_start_and_to_end() {
    let mut p = one_column_picker();
    p.matched_count = 7;
    p.to_end();
    assert_eq!(p.cursor, 6);
    p.to_start();
    assert_eq!(p.cursor, 0);
}

#[test]
fn toggle_preview_flips_only_the_flag() {
    let mut p = one_column_picker();
    assert!(p.show_preview);
    p.toggle_preview();
    assert!(!p.show_preview);
    p.toggle_preview();
    assert!(p.show_preview);
}

#[test]
fn close_retains_small_pickers_only() {
    let mut p = one_column_picker();
    p.item_count = MAX_RETAINED_ITEMS;
    let mut q = one_column_picker();
    q.item_count = MAX_RETAINED_ITEMS + 1;
    assert!(p.close());
    assert!(!q.close());
}

#[test]
fn view_window_pages_the_cursor() {
    // cursor 25, 10 rows a page: the window starts at 20, the cursor sits
    // on row 5 of it, and the window ends where the matches do.
    assert_eq!(view_window(25, 10, 28), (20, 5, 28));
    assert_eq!(view_window(25, 10, 100), (20, 5, 30));
    assert_eq!(view_window(0, 0, 3), (0, 0, 0));
    assert_eq!(view_window(2, 0, 3), (2, 0, 2));
}

#[test]
fn layout_split_honours_width_threshold() {
    assert_eq!(layout_split(100, true), (true, 50));
    assert_eq!(layout_split(72, true), (false, 72));
    assert_eq!(layout_split(100, false), (false, 100));
}

#[test]
fn preview_scroll_centers_or_top_aligns() {
    // A 4-line range in a 20-line viewport centers around line 12.
    assert_eq!(preview_scroll_line(10, 14, 20), 2);
    // A range taller than the viewport top-aligns.
    assert_eq!(preview_scroll_line(10, 50, 20), 10);
    // Near the top the anchor cannot go below zero.
    assert_eq!(preview_scroll_line(1, 3, 20), 0);
}

#[test]
fn primary_query_reads_the_primary_column() {
    let mut p = one_column_picker();
    p.update_line("needle".to_string());
    assert_eq!(p.primary_query(), Some(&"needle".to_string()));
    p.update_line("".to_string());
    assert_eq!(p.primary_query(), None);
}

#[test]
fn display_only_columns_are_not_matched() {
    let columns = vec![
        Column::new("name".to_string()),
        Column::new("line".to_string()).without_filtering(),
    ];
    let mut p: Picker<String> = Picker::new(columns, 0);
    let injector = p.injector();
    // Only one match column text is expected per item.
    injector
        .push("alpha".to_string(), vec!["alpha".to_string()])
        .expect("push into a live picker");
    tick_until_settled(&mut p, 1);
    assert_eq!(p.matched_count, 1);
}

#[test]
fn stream_feeds_a_picker_built_afterwards() {
    let columns = vec![Column::new("path".to_string())];
    let (engine, injector) = Picker::<String>::stream(&columns);
    // Items pushed before the picker exists are kept.
    injector
        .push("early".to_string(), vec!["early".to_string()])
        .expect("push through a fresh stream");
    let mut p = Picker::with_stream(engine, columns, 0, &injector);
    tick_until_settled(&mut p, 1);
    assert_eq!(p.item_count, 1);
    assert_eq!(p.selection(), Some(&"early".to_string()));
    // The streamed injector shares the picker's version: closing it cuts
    // the stream off.
    p.close();
    assert!(injector
        .push("late".to_string(), vec!["late".to_string()])
        .is_err());
}
