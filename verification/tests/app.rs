use procora_tui::app::{ActiveTab, App};
use procora_tui::input::{Key, KeyPress, MouseKind};
use procora_tui::protocol::{ProjectSnapshot, ServiceActionDto, TaskId, TaskView};

fn task(id: &str, command: &str, dependencies: &[&str], message: Option<&str>) -> TaskView {
    TaskView {
        task_id: TaskId::new(id.to_owned()),
        command: command.to_owned(),
        dependencies: dependencies.iter().map(|name| TaskId::new((*name).to_owned())).collect(),
        message: message.map(str::to_owned),
    }
}

fn snapshot() -> ProjectSnapshot {
    ProjectSnapshot {
        project: "demo".to_owned(),
        tasks: vec![
            task("a", "run a", &[], None),
            task("b", "serve", &["a"], Some("boom")),
        ],
    }
}

fn app() -> App {
    App::new(snapshot(), false, false)
}

fn id(name: &str) -> TaskId {
    TaskId::new(name.to_owned())
}

fn press(code: Key) -> KeyPress {
    KeyPress { code, control: false }
}

#[test]
fn selection_wraps_in_both_directions() {
    let mut app = app();
    assert_eq!(app.selected_index(), 0);
    assert!(app.handle_key(Key::Down));
    assert_eq!(app.selected_index(), 1);
    assert!(app.handle_key(Key::Char('j')));
    assert_eq!(app.selected_index(), 0);
    assert!(app.handle_key(Key::Up));
    assert_eq!(app.selected_index(), 1);
    assert!(app.handle_key(Key::Char('k')));
    assert_eq!(app.selected_index(), 0);
}

#[test]
fn tabs_cycle_and_same_tab_changes_nothing() {
    let mut app = app();
    assert!(app.handle_key(Key::Tab));
    assert_eq!(app.active_tab(), ActiveTab::Dependencies);
    assert!(app.handle_key(Key::BackTab));
    assert_eq!(app.active_tab(), ActiveTab::Tasks);
    assert!(app.handle_key(Key::Char('3')));
    assert_eq!(app.active_tab(), ActiveTab::Logs);
    assert!(!app.handle_key(Key::Char('3')));
    assert_eq!(ActiveTab::Logs.next(), ActiveTab::Tasks);
    assert_eq!(ActiveTab::Tasks.previous(), ActiveTab::Logs);
    assert_eq!(ActiveTab::Dependencies.index(), 1);
}

#[test]
fn quitting_by_key_and_interrupt() {
    let mut app = app();
    assert!(app.handle_key(Key::Esc));
    assert!(app.should_quit());

    let mut app = self::app();
    let interrupt = KeyPress { code: Key::Char('c'), control: true };
    assert!(app.handle_key_event(interrupt));
    assert!(app.should_quit());
    assert!(!app.handle_key_event(interrupt));
}

#[test]
fn clearing_a_log_needs_two_presses() {
    let mut app = app();
    app.handle_key(Key::Char('3'));
    assert!(app.append_log(id("a"), b"hello\n", false));
    assert!(app.handle_key(Key::Char('C')));
    assert_eq!(app.feedback(), Some("再次按 C 确认清空 Task `a` 的全部日志"));
    assert!(app.take_pending_log_clear().is_none());
    assert!(app.handle_key(Key::Char('C')));
    assert_eq!(app.take_pending_log_clear().map(|task| task.as_str().to_owned()), Some("a".to_owned()));
    assert!(app.clear_log(&id("a")));
    assert!(app.log_text(&id("a")).is_none());
    assert!(!app.clear_log(&id("a")));
}

#[test]
fn another_key_cancels_the_clear_confirmation() {
    let mut app = app();
    app.handle_key(Key::Char('3'));
    app.handle_key(Key::Char('C'));
    assert!(app.feedback().is_some());
    assert!(app.handle_key(Key::Down));
    assert!(app.feedback().is_none());
    app.handle_key(Key::Char('C'));
    assert!(app.take_pending_log_clear().is_none());
}

#[test]
fn appended_logs_keep_their_history() {
    let mut app = app();
    assert!(app.append_log(id("a"), b"one\n", false));
    assert!(app.append_log(id("a"), b"two\n", false));
    assert_eq!(app.log_text(&id("a")).as_deref(), Some("one\ntwo\n"));
    assert_eq!(app.log_total_lines(&id("a")), 2);
    assert_eq!(app.log_maximum_width(&id("a")), 3);
    assert!(!app.append_log(id("a"), b"", false));
    assert!(app.append_log(id("a"), b"", true));
    assert!(app.has_log_gap(&id("a")));
    assert_eq!(app.log_total_lines(&id("a")), 4);
    assert!(app.log_text(&id("b")).is_none());
}

#[test]
fn search_filters_and_finds_matches() {
    let mut app = app();
    app.handle_key(Key::Char('3'));
    app.append_log(id("a"), b"one\ntwo\nthree\n", false);
    assert!(app.handle_key(Key::Char('/')));
    assert_eq!(app.log_search_input(), Some(""));
    assert!(app.handle_key(Key::Char('t')));
    assert!(app.handle_key(Key::Char('w')));
    assert_eq!(app.log_search_input(), Some("tw"));
    assert!(app.handle_key(Key::Enter));
    assert_eq!(app.log_query(), "tw");
    assert!(app.log_search_input().is_none());
    assert_eq!(app.log_match_position(&id("a")), Some((1, 1)));
    assert!(app.handle_key(Key::Char('f')));
    assert!(app.log_filter_enabled());
    assert_eq!(app.log_total_lines(&id("a")), 1);
}

#[test]
fn escape_leaves_the_search_unchanged() {
    let mut app = app();
    app.handle_key(Key::Char('3'));
    app.handle_key(Key::Char('/'));
    app.handle_key(Key::Char('x'));
    assert!(app.handle_key(Key::Esc));
    assert_eq!(app.log_query(), "");
    assert!(!app.should_quit());
}

#[test]
fn lifecycle_keys_need_control() {
    let mut app = app();
    assert!(!app.handle_key(Key::Char('s')));
    assert!(app.take_pending_action().is_none());
    app.set_control_allowed(true);
    assert!(app.handle_key(Key::Char('s')));
    assert_eq!(app.take_pending_action(), Some(ServiceActionDto::Start));
    assert!(app.handle_key(Key::Char('x')));
    assert_eq!(app.take_pending_action(), Some(ServiceActionDto::Stop));
    assert!(app.handle_key(Key::Char('r')));
    assert_eq!(app.take_pending_action(), Some(ServiceActionDto::Restart));
}

#[test]
fn horizontal_moves_stay_within_the_longest_text() {
    let mut app = app();
    for _ in 0..10 {
        app.handle_key(Key::Right);
    }
    assert_eq!(app.horizontal_offset(), 4);
    assert!(app.manual_scroll_frozen());
    assert!(app.handle_key(Key::Left));
    assert_eq!(app.horizontal_offset(), 3);
    assert!(app.handle_key(Key::Down));
    assert_eq!(app.horizontal_offset(), 0);
}

#[test]
fn automatic_scrolling_toggles_and_advances() {
    let mut app = app();
    assert!(app.handle_key(Key::F(3)));
    assert!(app.auto_scroll_enabled());
    assert!(app.advance_auto_scroll(std::time::Duration::from_millis(500)));
    assert_eq!(app.automatic_text_offset(), 2);
    assert!(!app.advance_auto_scroll(std::time::Duration::from_millis(100)));
}

#[test]
fn mouse_wheel_moves_selection_and_log() {
    let mut app = app();
    assert!(app.handle_mouse(MouseKind::ScrollDown));
    assert_eq!(app.selected_index(), 1);
    assert!(!app.handle_mouse(MouseKind::Other));
    app.handle_key(Key::Char('3'));
    app.handle_key(Key::Up);
    let lines: String = (0..10).map(|index| format!("line {index}\n")).collect();
    app.append_log(id("a"), lines.as_bytes(), false);
    assert!(app.handle_mouse(MouseKind::ScrollUp));
    assert_eq!(app.log_scroll_distance(&id("a")), 3);
}

#[test]
fn scrolled_log_stays_on_the_same_lines() {
    let mut app = app();
    app.handle_key(Key::Char('3'));
    let lines: String = (0..30).map(|index| format!("line {index}\n")).collect();
    app.append_log(id("a"), lines.as_bytes(), false);
    assert!(app.handle_key(Key::PageUp));
    assert_eq!(app.log_scroll_distance(&id("a")), 20);
    app.append_log(id("a"), b"more\nlines\n", false);
    assert_eq!(app.log_scroll_distance(&id("a")), 22);
    assert!(app.handle_key(Key::End));
    assert_eq!(app.log_scroll_distance(&id("a")), 0);
    assert!(app.handle_key(Key::Home));
    assert_eq!(app.log_scroll_distance(&id("a")), 32);
    assert_eq!(app.log_scroll_top(&id("a"), 10), 0);
}

#[test]
fn new_snapshots_keep_a_sensible_selection() {
    let mut app = app();
    app.handle_key(Key::Down);
    assert!(!app.replace_snapshot(snapshot()));
    let smaller = ProjectSnapshot {
        project: "demo".to_owned(),
        tasks: vec![task("a", "run a", &[], None)],
    };
    assert!(app.replace_snapshot(smaller));
    assert_eq!(app.selected_index(), 0);
    assert_eq!(app.selected_task().map(|task| task.command.as_str()), Some("run a"));
}

#[test]
fn feedback_reports_whether_it_changed() {
    let mut app = app();
    assert!(app.set_feedback("done".to_owned()));
    assert!(!app.set_feedback("done".to_owned()));
    assert_eq!(app.feedback(), Some("done"));
}

#[test]
fn configuration_editing_request_is_taken_once() {
    let mut app = app();
    assert!(!app.config_edit_allowed());
    app.set_config_edit_allowed(true);
    assert!(app.config_edit_allowed());
    assert!(!app.take_pending_config_edit());
}

#[test]
fn help_closes_only_with_its_keys() {
    let mut app = app();
    assert!(!app.close_help_with(Key::Down));
    assert!(app.close_help_with(Key::Char('?')));
    assert!(!app.help_visible());
}

#[test]
fn key_presses_go_through_with_real_page_height() {
    let mut app = app();
    app.handle_key(Key::Char('3'));
    let lines: String = (0..30).map(|index| format!("line {index}\n")).collect();
    app.append_log(id("a"), lines.as_bytes(), false);
    assert!(app.handle_key_event_with_log_page(press(Key::PageUp), 5));
    assert_eq!(app.log_scroll_distance(&id("a")), 5);
    assert!(app.handle_key_event_with_log_page(press(Key::PageDown), 2));
    assert_eq!(app.log_scroll_distance(&id("a")), 3);
}

#[test]
fn clearing_a_log_drops_its_gap_mark_too() {
    let mut app = app();
    assert!(app.append_log(id("a"), b"one\n", true));
    assert!(app.has_log_gap(&id("a")));
    assert!(app.clear_log(&id("a")));
    assert!(app.log_text(&id("a")).is_none());
    assert!(!app.has_log_gap(&id("a")));
    assert!(!app.clear_log(&id("a")));
}
