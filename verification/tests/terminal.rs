use procora_tui::terminal::plain_mode_requested;

#[test]
fn plain_mode_follows_the_environment() {
    assert!(plain_mode_requested(true, false, Some("xterm")));
    assert!(plain_mode_requested(false, true, None));
    assert!(plain_mode_requested(false, false, Some("dumb")));
    assert!(plain_mode_requested(false, false, Some("DuMb")));
    assert!(!plain_mode_requested(false, false, Some("dumber")));
    assert!(!plain_mode_requested(false, false, Some("xterm-256color")));
    assert!(!plain_mode_requested(false, false, None));
}
