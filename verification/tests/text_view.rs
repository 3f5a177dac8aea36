use std::time::Duration;

use procora_tui::text_view::{auto_scroll_steps, checked_input_view, clipped, input_view};

#[test]
fn short_text_ignores_horizontal_offset() {
    assert_eq!(clipped("short", 3, 10), "short");
}

#[test]
fn auto_scroll_speed_uses_elapsed_time() {
    let mut remainder = Duration::ZERO;

    assert_eq!(
        auto_scroll_steps(&mut remainder, Duration::from_millis(625)),
        2
    );
    assert_eq!(
        auto_scroll_steps(&mut remainder, Duration::from_millis(375)),
        2
    );
    assert_eq!(remainder, Duration::ZERO);
}

#[test]
fn any_width_that_holds_the_text_shows_it_whole() {
    assert_eq!(clipped("a long line", 4, usize::MAX), "a long line");
    assert_eq!(clipped("a long line", 4, 0), "");
    assert_eq!(clipped("a long line", 2, 6), "…long…");
}

#[test]
fn input_view_keeps_the_cursor_visible() {
    let view = checked_input_view("hello world", 11, 6).unwrap();
    assert_eq!(view.text, "…orld");
    assert_eq!(view.cursor_x, 5);
    let direct = input_view("hello world", 11, 6);
    assert_eq!(direct.text, view.text);
    let empty = checked_input_view("hello", 3, 0).unwrap();
    assert_eq!(empty.text, "");
    assert_eq!(empty.cursor_x, 0);
}
