use procora_tui::input::{key_activates, KeyEventKind};

#[test]
fn repeated_keys_remain_actionable() {
    assert!(key_activates(KeyEventKind::Press));
    assert!(key_activates(KeyEventKind::Repeat));
    assert!(!key_activates(KeyEventKind::Release));
}
