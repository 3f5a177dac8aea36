use procora_tui::config_editor::{ConfigEditor, ConfigFormat, EditorRequest};
use procora_tui::input::{Key, KeyPress};

fn press(code: Key) -> KeyPress {
    KeyPress { code, control: false }
}

fn control(character: char) -> KeyPress {
    KeyPress { code: Key::Char(character), control: true }
}

fn editor(text: &str) -> ConfigEditor {
    ConfigEditor::from_text("procora.yaml".to_owned(), ConfigFormat::Yaml, text)
}

#[test]
fn text_round_trips_through_the_editor() {
    assert_eq!(editor("name: demo\ntasks: []\n").text(), "name: demo\ntasks: []\n");
    assert_eq!(editor("name: demo").text(), "name: demo\n");
    assert_eq!(editor("").text(), "\n");
    assert_eq!(editor("a\n\n").text(), "a\n\n");
    assert_eq!(editor("a\n\n").lines(), vec!["a".to_owned(), String::new()]);
}

#[test]
fn opening_state() {
    let editor = editor("a: 1\n");
    assert_eq!(editor.cursor(), (0, 0));
    assert_eq!(editor.scroll(), 0);
    assert_eq!(editor.horizontal_scroll(), 0);
    assert_eq!(editor.message(), "编辑后按 Ctrl-S 校验并保存");
    assert_eq!(editor.path(), "procora.yaml");
    assert_eq!(editor.format(), ConfigFormat::Yaml);
    assert!(!editor.should_quit());
    assert!(!editor.is_dirty());
}

#[test]
fn typing_inserts_at_the_cursor() {
    let mut editor = editor("ab\n");
    editor.handle_key(press(Key::Right));
    assert_eq!(editor.handle_key(press(Key::Char('x'))), EditorRequest::Nothing);
    assert_eq!(editor.text(), "axb\n");
    assert_eq!(editor.cursor(), (0, 2));
    assert!(editor.is_dirty());
    assert_eq!(editor.message(), "未保存；Ctrl-S 校验并保存");
    editor.handle_key(press(Key::Tab));
    assert_eq!(editor.text(), "ax  b\n");
    assert_eq!(editor.cursor(), (0, 4));
}

#[test]
fn enter_splits_and_backspace_joins() {
    let mut editor = editor("abcd\n");
    editor.handle_key(press(Key::Right));
    editor.handle_key(press(Key::Right));
    editor.handle_key(press(Key::Enter));
    assert_eq!(editor.lines(), vec!["ab".to_owned(), "cd".to_owned()]);
    assert_eq!(editor.cursor(), (1, 0));
    editor.handle_key(press(Key::Backspace));
    assert_eq!(editor.text(), "abcd\n");
    assert_eq!(editor.cursor(), (0, 2));
    editor.handle_key(press(Key::Backspace));
    assert_eq!(editor.text(), "acd\n");
    assert_eq!(editor.cursor(), (0, 1));
}

#[test]
fn backspace_at_start_changes_nothing() {
    let mut editor = editor("a\n");
    editor.handle_key(press(Key::Backspace));
    assert_eq!(editor.text(), "a\n");
    assert!(!editor.is_dirty());
}

#[test]
fn delete_removes_or_joins_next_line() {
    let mut editor = editor("ab\ncd\n");
    editor.handle_key(press(Key::Delete));
    assert_eq!(editor.text(), "b\ncd\n");
    editor.handle_key(press(Key::End));
    editor.handle_key(press(Key::Delete));
    assert_eq!(editor.text(), "bcd\n");
    editor.handle_key(press(Key::End));
    editor.handle_key(press(Key::Delete));
    assert_eq!(editor.text(), "bcd\n");
}

#[test]
fn cursor_wraps_and_clamps() {
    let mut editor = editor("long line\nab\n");
    editor.handle_key(press(Key::End));
    assert_eq!(editor.cursor(), (0, 9));
    editor.handle_key(press(Key::Down));
    assert_eq!(editor.cursor(), (1, 2));
    editor.handle_key(press(Key::Right));
    assert_eq!(editor.cursor(), (1, 2));
    editor.handle_key(press(Key::Home));
    editor.handle_key(press(Key::Left));
    assert_eq!(editor.cursor(), (0, 9));
    editor.handle_key(press(Key::Right));
    assert_eq!(editor.cursor(), (1, 0));
    editor.handle_key(press(Key::Up));
    assert_eq!(editor.cursor(), (0, 0));
    editor.handle_key(press(Key::Up));
    assert_eq!(editor.cursor(), (0, 0));
}

#[test]
fn quitting_with_changes_needs_confirmation() {
    let mut editor = editor("a\n");
    editor.handle_key(press(Key::Char('b')));
    editor.handle_key(press(Key::Esc));
    assert!(!editor.should_quit());
    assert_eq!(editor.message(), "有未保存修改；再次按 Esc 或 Ctrl-C 放弃");
    editor.handle_key(press(Key::Left));
    editor.handle_key(press(Key::Esc));
    assert!(!editor.should_quit());
    editor.handle_key(control('c'));
    assert!(editor.should_quit());
}

#[test]
fn quitting_without_changes_is_immediate() {
    let mut editor = editor("a\n");
    editor.handle_key(press(Key::Esc));
    assert!(editor.should_quit());
}

#[test]
fn control_and_function_keys_make_requests() {
    let mut editor = editor("a\n");
    assert_eq!(editor.handle_key(control('s')), EditorRequest::Save);
    assert_eq!(editor.handle_key(control('x')), EditorRequest::Nothing);
    assert_eq!(editor.text(), "a\n");
    assert_eq!(editor.handle_key(press(Key::F(1))), EditorRequest::OpenForm);
    assert_eq!(editor.handle_key(press(Key::F(2))), EditorRequest::Nothing);
    assert_eq!(editor.message(), "已进入高级文本模式；F1 返回表单");
    editor.set_definition_documents(1);
    assert_eq!(editor.handle_key(press(Key::F(1))), EditorRequest::OpenForm);
    editor.set_definition_documents(2);
    assert_eq!(editor.handle_key(press(Key::F(1))), EditorRequest::Nothing);
    assert_eq!(editor.message(), "多文件配置保持高级文本模式，避免表单展开后丢失输入来源");
}

#[test]
fn vertical_scroll_follows_cursor() {
    let mut editor = editor("1\n2\n3\n4\n5\n");
    for _ in 0..4 {
        editor.handle_key(press(Key::Down));
    }
    editor.ensure_visible(2);
    assert_eq!(editor.scroll(), 3);
    editor.handle_key(press(Key::Up));
    editor.handle_key(press(Key::Up));
    editor.ensure_visible(2);
    assert_eq!(editor.scroll(), 2);
    editor.ensure_visible(0);
    assert_eq!(editor.scroll(), 2);
}

#[test]
fn horizontal_scroll_uses_display_width() {
    let mut editor = editor("中文ab\n");
    editor.handle_key(press(Key::Right));
    editor.handle_key(press(Key::Right));
    editor.ensure_horizontal_visible(3);
    assert_eq!(editor.horizontal_scroll(), 2);
    editor.handle_key(press(Key::Home));
    editor.ensure_horizontal_visible(3);
    assert_eq!(editor.horizontal_scroll(), 0);
}

#[test]
fn save_outcomes_update_the_message() {
    let mut editor = editor("a\n");
    editor.handle_key(press(Key::Char('b')));
    editor.report_invalid("bad task");
    assert_eq!(editor.message(), "配置无效：bad task");
    assert!(editor.is_dirty());
    editor.report_write_error("denied");
    assert_eq!(editor.message(), "保存失败：denied");
    editor.mark_saved(3, 10);
    assert_eq!(editor.message(), "已保存：3 个任务，10 个管理依赖");
    assert!(!editor.is_dirty());
    editor.report_form_unavailable("missing tasks");
    assert_eq!(editor.message(), "配置无效，无法打开表单：missing tasks；请在文本模式修复");
}

#[test]
fn formats_by_extension() {
    assert_eq!(ConfigFormat::from_extension("yaml"), Some(ConfigFormat::Yaml));
    assert_eq!(ConfigFormat::from_extension("yml"), Some(ConfigFormat::Yaml));
    assert_eq!(ConfigFormat::from_extension("toml"), Some(ConfigFormat::Toml));
    assert_eq!(ConfigFormat::from_extension("json"), Some(ConfigFormat::Json));
    assert_eq!(ConfigFormat::from_extension("txt"), None);
}
