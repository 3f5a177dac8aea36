use std::time::Duration;

use procora_tui::form_dependency::FormDependency;
use procora_tui::form_dialog::{Dialog, DialogKind};
use procora_tui::form_field::{choice_field, field, map_field};
use procora_tui::help::HelpVisibility;
use procora_tui::input::{Key, KeyPress};
use procora_tui::key_hints::{adaptive, join};
use procora_tui::live::{action_feedback, LiveSchedule};
use procora_tui::log_source::LogSourceFilter;
use procora_tui::map_editor::{MapColumn, MapEditor};
use procora_tui::protocol::{ServiceActionDto, TaskId};
use procora_tui::selection::{SelectionEvent, SelectionItem, SelectionState};
use procora_tui::task_map::TaskMap;
use procora_tui::transition::{Rect, TransitionDirection, UiTransition};

fn press(code: Key) -> KeyPress {
    KeyPress { code, control: false }
}

fn control(character: char) -> KeyPress {
    KeyPress { code: Key::Char(character), control: true }
}

fn choices() -> SelectionState<u32> {
    SelectionState::new(vec![
        SelectionItem::new("one".to_owned(), "first".to_owned(), 1),
        SelectionItem::new("two".to_owned(), "second".to_owned(), 2),
        SelectionItem::new("three".to_owned(), "third".to_owned(), 3),
    ])
}

#[test]
fn selection_moves_confirms_and_cancels() {
    let mut state = choices();
    assert_eq!(state.len(), 3);
    assert!(!state.is_empty());
    assert_eq!(state.handle_key(Key::Up), SelectionEvent::Pending);
    assert_eq!(state.selected(), 0);
    state.handle_key(Key::Char('j'));
    state.handle_key(Key::Down);
    state.handle_key(Key::Down);
    assert_eq!(state.selected(), 2);
    state.handle_key(Key::Char('k'));
    assert_eq!(state.handle_key(Key::Enter), SelectionEvent::Selected(2));
    state.handle_key(Key::Home);
    assert_eq!(state.selected(), 0);
    state.handle_key(Key::End);
    assert_eq!(state.selected(), 2);
    assert_eq!(state.handle_key(Key::Char('q')), SelectionEvent::Cancelled);
    assert_eq!(state.handle_key(Key::Esc), SelectionEvent::Cancelled);
    assert_eq!(state.items()[1].label(), "two");
    assert_eq!(state.items()[1].description(), "second");
}

#[test]
fn key_hints_pick_the_widest_that_fits() {
    let candidates = vec!["q 退出  Tab 切换".to_owned(), "q 退出".to_owned(), "q".to_owned()];
    assert_eq!(adaptive(&candidates, 80), "q 退出  Tab 切换");
    assert_eq!(adaptive(&candidates, 6), "q 退出");
    assert_eq!(adaptive(&candidates, 1), "q");
    assert_eq!(adaptive(&candidates, 0), "q");
    assert_eq!(adaptive(&Vec::new(), 10), "");
    assert_eq!(join(&["q 退出", "? 帮助"]), "q 退出  ? 帮助");
    assert_eq!(join(&[]), "");
}

#[test]
fn transition_slides_in_and_ends() {
    let mut transition = UiTransition::new();
    assert!(!transition.active());
    let area = Rect { x: 0, y: 1, width: 100, height: 20 };
    assert_eq!(transition.content_area(area), area);
    assert!(!transition.advance(Duration::from_millis(10)));
    transition.start(TransitionDirection::Forward);
    assert!(transition.active());
    assert_eq!(transition.content_area(area), Rect { x: 3, y: 1, width: 97, height: 20 });
    assert!(transition.advance(Duration::from_millis(100)));
    assert_eq!(transition.content_area(area), Rect { x: 1, y: 1, width: 99, height: 20 });
    let narrow = Rect { x: 0, y: 0, width: 40, height: 10 };
    assert_eq!(transition.content_area(narrow), Rect { x: 1, y: 0, width: 39, height: 10 });
    assert!(transition.advance(Duration::from_millis(100)));
    assert!(!transition.active());
    assert_eq!(transition.content_area(area), area);
    transition.start(TransitionDirection::Backward);
    assert_eq!(transition.content_area(area), Rect { x: 0, y: 1, width: 97, height: 20 });
}

#[test]
fn live_schedule_waits_for_the_next_refresh() {
    let mut schedule = LiveSchedule::starting_at(1_000);
    assert_eq!(schedule.input_wait(1_000, true), 0);
    assert!(schedule.take_snapshot_due(1_000));
    assert!(!schedule.take_log_due(1_000, false));
    assert!(schedule.take_log_due(1_000, true));
    assert_eq!(schedule.next_snapshot, 1_500);
    assert_eq!(schedule.next_log, 1_200);
    assert_eq!(schedule.input_wait(1_010, false), 50);
    assert_eq!(schedule.input_wait(1_170, true), 30);
    assert_eq!(schedule.input_wait(1_480, false), 20);
    assert!(!schedule.take_snapshot_due(1_499));
    assert_eq!(action_feedback(ServiceActionDto::Restart), "服务重启请求已完成");
    assert_eq!(action_feedback(ServiceActionDto::Start), "服务启动请求已完成");
    assert_eq!(action_feedback(ServiceActionDto::Stop), "服务停止请求已完成");
}

#[test]
fn log_sources_and_help() {
    let filter = LogSourceFilter::All;
    assert_eq!(filter.label(), "全部");
    assert_eq!(filter.next(), LogSourceFilter::Procora);
    assert_eq!(filter.next().next().label(), "子进程");
    assert_eq!(filter.next().next().next(), LogSourceFilter::All);
    let mut help = HelpVisibility::Hidden;
    assert!(!help.visible());
    help.show();
    assert!(help.visible());
    help.close();
    assert!(!help.visible());
}

#[test]
fn task_map_keeps_one_value_per_task() {
    let mut map: TaskMap<u32> = TaskMap::new();
    let web = TaskId::new("web".to_owned());
    let db = TaskId::new("db".to_owned());
    map.insert(web.clone(), 1);
    map.insert(db.clone(), 2);
    map.insert(web.clone(), 3);
    assert!(map.contains(&web));
    assert_eq!(map.get(&web), Some(&3));
    assert_eq!(map.get_copy(&db), Some(2));
    assert_eq!(map.take(&db), Some(2));
    assert!(!map.contains(&db));
    assert!(map.remove(&web));
    assert_eq!(map.get(&web), None);
    map.insert(db.clone(), 5);
    map.clear();
    assert!(!map.contains(&db));
}

#[test]
fn map_editor_edits_rows_and_checks_keys() {
    let mut editor = MapEditor::new(3, vec![("A".to_owned(), "1".to_owned())]);
    assert_eq!(editor.field(), 3);
    assert_eq!(editor.position(), (0, MapColumn::Key, 1));
    editor.handle_key(press(Key::Tab));
    assert_eq!(editor.position(), (0, MapColumn::Value, 1));
    editor.handle_key(press(Key::Char('0')));
    editor.handle_key(control('n'));
    assert_eq!(editor.position(), (1, MapColumn::Key, 0));
    editor.handle_key(press(Key::Char('B')));
    editor.handle_key(press(Key::Tab));
    editor.handle_key(press(Key::Char('2')));
    assert_eq!(editor.values(), Ok(vec![("A".to_owned(), "10".to_owned()), ("B".to_owned(), "2".to_owned())]));
    editor.handle_key(press(Key::Up));
    editor.handle_key(press(Key::Tab));
    editor.handle_key(press(Key::Backspace));
    editor.handle_key(press(Key::Char('B')));
    assert_eq!(editor.values(), Err("键值表中的键 `B` 重复".to_owned()));
    editor.handle_key(press(Key::Home));
    editor.handle_key(press(Key::Delete));
    editor.handle_key(press(Key::Char(' ')));
    assert_eq!(editor.values(), Err("键值表中的键不能为空".to_owned()));
    editor.handle_key(control('d'));
    assert_eq!(editor.rows().len(), 1);
    assert_eq!(editor.values(), Ok(vec![("B".to_owned(), "2".to_owned())]));
}

#[test]
fn dependency_dialog_fields_and_choices() {
    let mut dependency = FormDependency::default_value();
    dependency.source = "https://example.com/tool.tar.gz".to_owned();
    dependency.version = "source".to_owned();
    let mut dialog = Dialog::dependency(Some("tool"), &dependency);
    assert_eq!(dialog.title(), "编辑管理依赖");
    assert!(!dialog.is_dirty());
    assert!(!dialog.is_task());
    let fields = dialog.fields();
    assert_eq!(fields.len(), 6);
    assert_eq!(fields[0], ("依赖名称".to_owned(), "tool".to_owned(), true));
    assert_eq!(fields[2].1, "");
    assert_eq!(fields[4].1, "auto");
    for _ in 0..4 {
        dialog.next_field(true);
    }
    assert!(dialog.selected_is_choice());
    dialog.cycle_choice(true);
    assert_eq!(dialog.fields()[4].1, "binary");
    assert!(dialog.is_dirty());
    dialog.cycle_choice(false);
    dialog.cycle_choice(false);
    assert_eq!(dialog.fields()[4].1, "directory");
    assert_eq!(Dialog::new_dependency().title(), "新建管理依赖");
}

#[test]
fn dialog_typing_and_tables() {
    let mut dialog = Dialog::new(
        DialogKind::Task(None),
        vec![
            field("名称", "", &[]),
            map_field("环境", "A=1".to_owned()),
            choice_field("重启", "never", vec!["never".to_owned(), "always".to_owned()]),
        ],
    );
    assert_eq!(dialog.title(), "新建 Task");
    assert!(dialog.is_task());
    dialog.insert('w');
    dialog.insert('b');
    dialog.move_cursor(false);
    dialog.insert('e');
    assert_eq!(dialog.selected_input(), Some(("名称", "web", 2)));
    dialog.backspace();
    assert_eq!(dialog.selected_input(), Some(("名称", "wb", 1)));
    dialog.move_cursor_edge(true);
    assert_eq!(dialog.selected_input(), Some(("名称", "wb", 2)));
    assert_eq!(dialog.open_map_editor(), Err("当前字段不是键值表".to_owned()));
    dialog.next_field(true);
    assert!(dialog.selected_is_map());
    assert_eq!(dialog.open_map_editor(), Ok(()));
    assert!(dialog.has_map_editor());
    assert_eq!(dialog.selected_input(), None);
    dialog.handle_map_key(press(Key::Tab));
    dialog.handle_map_key(press(Key::Char('5')));
    assert_eq!(dialog.handle_map_key(press(Key::Enter)), Some(Ok(())));
    assert!(!dialog.has_map_editor());
    assert_eq!(dialog.fields()[1].1, r#"{"A":"15"}"#);
    dialog.next_field(false);
    dialog.next_field(false);
    assert!(dialog.selected_is_choice());
}

#[test]
fn cycling_a_choice_and_back_restores_it() {
    let mut dialog = Dialog::new(
        DialogKind::Task(Some("web".to_owned())),
        vec![choice_field("重启", "always", vec!["never".to_owned(), "always".to_owned(), "on-failure".to_owned()])],
    );
    dialog.cycle_choice(true);
    assert_eq!(dialog.fields()[0].1, "on-failure");
    dialog.cycle_choice(false);
    assert_eq!(dialog.fields()[0].1, "always");
    dialog.cycle_choice(false);
    dialog.cycle_choice(false);
    assert_eq!(dialog.fields()[0].1, "on-failure");
    dialog.cycle_choice(true);
    assert_eq!(dialog.fields()[0].1, "never");
    assert_eq!(dialog.title(), "编辑 Task");
}
