use procora_tui::directory_picker::{portable_path, requested_directory, DirectoryPicker, PickerEvent};
use procora_tui::form_dialog::{Dialog, DialogKind};
use procora_tui::form_field::{directory_field, field};
use procora_tui::input::Key;

fn parts(items: &[&str]) -> Vec<String> {
    items.iter().map(|item| (*item).to_owned()).collect()
}

fn labels(picker: &DirectoryPicker) -> Vec<String> {
    picker.entries().into_iter().map(|(label, _)| label).collect()
}

fn picker() -> DirectoryPicker {
    let base = parts(&["home", "me", "proj"]);
    DirectoryPicker::new(
        2,
        base.clone(),
        base,
        Ok(parts(&["src", "Docs", "build", "a-b", "a"])),
    )
}

fn selected_value(event: PickerEvent) -> (usize, String) {
    match event {
        PickerEvent::Selected { field, value } => (field, value),
        other => panic!("expected a selection, got {other:?}"),
    }
}

#[test]
fn entries_list_choice_parent_and_sorted_directories() {
    let picker = picker();
    assert_eq!(
        labels(&picker),
        vec!["✓ 选择此目录", "↰ 返回上级", "▸ a-b/", "▸ a/", "▸ build/", "▸ Docs/", "▸ src/"]
    );
    assert_eq!(picker.selected(), 0);
    assert_eq!(picker.error(), None);
    assert_eq!(picker.location(), "/home/me/proj");
    assert_eq!(picker.field(), 2);
    assert!(picker.entries()[0].1);
    assert!(!picker.entries()[1].1);
}

#[test]
fn opening_a_subdirectory_and_choosing_it() {
    let mut picker = picker();
    assert!(matches!(picker.handle_key(Key::Down), PickerEvent::Continue));
    assert!(matches!(picker.handle_key(Key::Char('j')), PickerEvent::Continue));
    assert_eq!(picker.selected(), 2);
    assert!(matches!(picker.handle_key(Key::Enter), PickerEvent::Load));
    assert_eq!(picker.current(), parts(&["home", "me", "proj", "a-b"]));
    assert_eq!(picker.selected(), 0);
    picker.refresh(Ok(Vec::new()));
    assert_eq!(labels(&picker), vec!["✓ 选择此目录", "↰ 返回上级"]);
    assert_eq!(selected_value(picker.handle_key(Key::Char(' '))), (2, "a-b".to_owned()));
    assert_eq!(selected_value(picker.handle_key(Key::Enter)), (2, "a-b".to_owned()));
}

#[test]
fn parent_and_base_are_written_relatively() {
    let mut picker = picker();
    assert_eq!(selected_value(picker.handle_key(Key::Char(' '))), (2, ".".to_owned()));
    assert!(matches!(picker.handle_key(Key::Left), PickerEvent::Load));
    picker.refresh(Ok(parts(&["proj", "other"])));
    assert_eq!(picker.location(), "/home/me");
    assert_eq!(selected_value(picker.handle_key(Key::Char(' '))), (2, "..".to_owned()));
    picker.handle_key(Key::Down);
    assert!(matches!(picker.handle_key(Key::Enter), PickerEvent::Load));
    assert_eq!(picker.current(), parts(&["home"]));
}

#[test]
fn navigation_keys_stay_within_entries() {
    let mut picker = picker();
    picker.handle_key(Key::Up);
    assert_eq!(picker.selected(), 0);
    picker.handle_key(Key::End);
    assert_eq!(picker.selected(), 6);
    picker.handle_key(Key::Down);
    assert_eq!(picker.selected(), 6);
    picker.handle_key(Key::Char('k'));
    assert_eq!(picker.selected(), 5);
    picker.handle_key(Key::Home);
    assert_eq!(picker.selected(), 0);
    assert!(matches!(picker.handle_key(Key::Esc), PickerEvent::Cancel));
    assert!(matches!(picker.handle_key(Key::Char('r')), PickerEvent::Load));
    assert!(matches!(picker.handle_key(Key::Tab), PickerEvent::Continue));
}

#[test]
fn refresh_keeps_selection_within_shorter_listing() {
    let mut picker = picker();
    picker.handle_key(Key::End);
    picker.refresh(Err("denied".to_owned()));
    assert_eq!(picker.error(), Some("无法读取目录：denied".to_owned()));
    assert_eq!(labels(&picker), vec!["✓ 选择此目录", "↰ 返回上级"]);
    assert_eq!(picker.selected(), 1);
    picker.refresh(Ok(Vec::new()));
    assert_eq!(picker.error(), None);
}

#[test]
fn the_root_has_no_parent_entry() {
    let mut picker = DirectoryPicker::new(0, parts(&["srv"]), Vec::new(), Ok(parts(&["srv"])));
    assert_eq!(labels(&picker), vec!["✓ 选择此目录", "▸ srv/"]);
    assert_eq!(picker.location(), "/");
    assert!(matches!(picker.handle_key(Key::Left), PickerEvent::Continue));
    assert_eq!(selected_value(picker.handle_key(Key::Char(' '))), (0, "..".to_owned()));
}

#[test]
fn relative_paths_between_directories() {
    assert_eq!(portable_path(&parts(&["a", "b"]), &parts(&["a", "c"])), "../b");
    assert_eq!(portable_path(&parts(&["a"]), &parts(&["a"])), ".");
    assert_eq!(portable_path(&parts(&["x"]), &parts(&["a", "b"])), "../../x");
    assert_eq!(portable_path(&parts(&["a", "b", "c"]), &parts(&["a"])), "b/c");
}

#[test]
fn requested_directory_from_field_text() {
    let base = parts(&["home", "me"]);
    assert_eq!(requested_directory("", &base), base);
    assert_eq!(requested_directory("   ", &base), base);
    assert_eq!(requested_directory("/tmp/x/", &base), parts(&["tmp", "x"]));
    assert_eq!(requested_directory("sub/./inner", &base), parts(&["home", "me", "sub", "inner"]));
    assert_eq!(requested_directory("../up", &base), parts(&["home", "me", "..", "up"]));
}

#[test]
fn dialog_takes_a_chosen_directory() {
    let mut dialog = Dialog::new(
        DialogKind::Project,
        vec![field("名称", "demo", &[]), directory_field("目录", "old")],
    );
    assert_eq!(dialog.directory_request(), Err("当前字段不是目录".to_owned()));
    assert!(!dialog.selected_is_directory());
    dialog.next_field(true);
    assert!(dialog.selected_is_directory());
    assert_eq!(dialog.directory_request(), Ok((1, "old".to_owned())));
    dialog.choose_directory(1, "services/api".to_owned());
    assert_eq!(dialog.selected_input(), Some(("目录", "services/api", 12)));
}
