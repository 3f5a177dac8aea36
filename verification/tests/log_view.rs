use procora_tui::log_view::{parse, visible_lines, LogColor};

#[test]
fn ansi_colors_are_styled_and_searchable() {
    let lines = parse(b"normal \x1b[31merror\x1b[0m\n");
    assert_eq!(lines[0].plain, "normal error");
    assert_eq!(lines[0].spans[1].style.fg, Some(LogColor::Red));
    assert_eq!(
        visible_lines(b"ok\n\x1b[31mERROR\x1b[0m\n", "error", true),
        ["ERROR"]
    );
}
