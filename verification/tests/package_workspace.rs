use procora_tui::input::{Key, KeyPress};
use procora_tui::package_model::{InstalledRelease, InstalledService, PackageInfo, PackageWorkspaceEntry};
use procora_tui::package_workspace::{PackageWorkspaceApp, PackageWorkspaceExit, PackageWorkspaceTab};

fn entry(path: &str, exports: &[&str]) -> PackageWorkspaceEntry {
    PackageWorkspaceEntry {
        path: path.to_owned(),
        info: Some(PackageInfo {
            project: "demo".to_owned(),
            package_digest: "sha256:abc".to_owned(),
            exports: exports.iter().map(|name| (*name).to_owned()).collect(),
            platforms: vec!["linux-x86_64".to_owned()],
        }),
        error: None,
    }
}

fn broken(path: &str) -> PackageWorkspaceEntry {
    PackageWorkspaceEntry { path: path.to_owned(), info: None, error: Some("bad manifest".to_owned()) }
}

fn installed(project: &str, error: Option<&str>) -> InstalledService {
    InstalledService {
        project: project.to_owned(),
        root: format!("/opt/{project}"),
        error: error.map(str::to_owned),
        releases: vec![InstalledRelease {
            id: "r1".to_owned(),
            sha256: "abc".to_owned(),
            config_path: format!("/opt/{project}/r1/procora.yaml"),
        }],
        packages: Vec::new(),
    }
}

fn workbench() -> PackageWorkspaceApp {
    let mut app = PackageWorkspaceApp::new(
        vec![entry("a.pcpkg", &["api"]), entry("b.pcpkg", &["api", "web"]), broken("c.pcpkg")],
        vec![installed("demo", None), installed("old", Some("state damaged"))],
        Some("/srv/demo".to_owned()),
        false,
    );
    app.set_control_allowed(true);
    app
}

#[test]
fn package_actions_target_the_selected_file() {
    let mut app = workbench();
    assert!(app.handle_key(Key::Char('v')));
    assert!(matches!(app.take_exit(), Some(PackageWorkspaceExit::Verify(path)) if path == "a.pcpkg"));
    app.handle_key(Key::Down);
    app.handle_key(Key::Down);
    assert!(app.handle_key(Key::Char('i')));
    assert!(app.take_exit().is_none());
    assert_eq!(app.feedback(), Some("包清单不可读；仍可按 Delete Delete 或 X X 删除"));
    app.handle_key(Key::Tab);
    assert_eq!(app.tab(), PackageWorkspaceTab::Installed);
    app.handle_key(Key::Char('x'));
    assert_eq!(app.feedback(), Some("切换到“包文件”后再执行该操作"));
}

#[test]
fn exports_push_directly_or_open_a_picker() {
    let mut app = workbench();
    assert!(app.handle_key(Key::Char('u')));
    assert!(matches!(
        app.take_exit(),
        Some(PackageWorkspaceExit::PushExport { package, entry }) if package == "a.pcpkg" && entry == "api"
    ));
    app.handle_key(Key::Down);
    assert!(app.handle_key(Key::Char('u')));
    let (entries, selected) = app.export_picker().expect("picker");
    assert_eq!(entries, ["api".to_owned(), "web".to_owned()]);
    assert_eq!(selected, 0);
    assert!(app.handle_key(Key::Up));
    assert_eq!(app.export_picker().map(|picker| picker.1), Some(1));
    assert!(app.handle_key(Key::Enter));
    assert!(app.export_picker().is_none());
    assert!(matches!(
        app.take_exit(),
        Some(PackageWorkspaceExit::PushExport { package, entry }) if package == "b.pcpkg" && entry == "web"
    ));
}

#[test]
fn purge_needs_two_presses_on_the_installed_view() {
    let mut app = workbench();
    app.handle_key(Key::Char('D'));
    assert_eq!(app.feedback(), Some("切换到“已安装”后再永久删除安装数据"));
    app.handle_key(Key::Tab);
    assert!(app.handle_key(Key::Char('D')));
    assert_eq!(app.purge_confirmation(), Some("demo"));
    assert_eq!(
        app.feedback(),
        Some("将永久删除 `demo` 的全部 release、状态和原始包；同名普通 Service 不受影响；再次按大写 D 确认")
    );
    assert!(app.handle_key(Key::Char('D')));
    assert!(matches!(app.take_exit(), Some(PackageWorkspaceExit::Purge(project)) if project == "demo"));
}

#[test]
fn another_key_cancels_a_pending_confirmation() {
    let mut app = workbench();
    app.handle_key(Key::Tab);
    app.handle_key(Key::Char('U'));
    assert!(app.handle_key(Key::Char('j')));
    app.handle_key(Key::Char('k'));
    app.handle_key(Key::Char('U'));
    assert!(app.take_exit().is_none());
    assert_eq!(
        app.feedback(),
        Some("将解除 `demo` 的包托管注册并保留 release 和原始包；同名普通 Service 不受影响；再次按大写 U 确认")
    );
}

#[test]
fn damaged_installations_refuse_release_actions() {
    let mut app = workbench();
    app.handle_key(Key::Tab);
    assert!(app.handle_key(Key::Char('R')));
    assert!(matches!(app.take_exit(), Some(PackageWorkspaceExit::Rollback(project)) if project == "demo"));
    app.handle_key(Key::Down);
    assert!(app.handle_key(Key::Char('c')));
    assert!(app.take_exit().is_none());
    assert_eq!(app.feedback(), Some("安装状态损坏；可按 U U 解除，或按 D D 永久删除安装数据"));
}

#[test]
fn package_files_are_deleted_after_confirmation() {
    let mut app = workbench();
    assert!(app.handle_key(Key::Delete));
    assert_eq!(app.feedback(), Some("将永久删除包文件 `a.pcpkg`；再次按 Delete 或大写 X 确认"));
    assert!(app.handle_key(Key::Char('X')));
    assert!(matches!(app.take_exit(), Some(PackageWorkspaceExit::DeletePackage(path)) if path == "a.pcpkg"));
}

#[test]
fn help_takes_the_keys_while_open() {
    let mut app = workbench();
    assert!(app.handle_key(Key::Char('?')));
    assert!(app.help_visible());
    assert!(!app.handle_key(Key::Char('v')));
    assert!(app.take_exit().is_none());
    assert!(app.handle_key(Key::Esc));
    assert!(!app.help_visible());
    assert!(!app.handle_key(Key::Char('z')));
    assert!(app.handle_key_event(KeyPress { code: Key::Char('c'), control: true }));
    assert!(matches!(app.take_exit(), Some(PackageWorkspaceExit::Back)));
}

#[test]
fn rescans_keep_the_selected_entries() {
    let mut app = workbench();
    app.handle_key(Key::Down);
    app.replace_data(vec![entry("b.pcpkg", &[]), entry("z.pcpkg", &[])], vec![installed("other", None)]);
    assert_eq!(app.selected_package_index(), 0);
    assert_eq!(app.selected_package().map(|entry| entry.path.as_str()), Some("b.pcpkg"));
    assert_eq!(app.selected_installed_index(), 0);
    app.replace_data(Vec::new(), Vec::new());
    assert!(app.selected_package().is_none());
    assert_eq!(app.packages().len(), 0);
    assert_eq!(app.context_source(), Some("/srv/demo"));
    assert_eq!(PackageWorkspaceTab::Installed.label(), "已安装");
}

#[test]
fn horizontal_moves_follow_the_selected_texts() {
    let mut app = workbench();
    for _ in 0..40 {
        app.handle_key(Key::Right);
    }
    assert_eq!(app.text_offset(true), 11);
    assert!(app.handle_key(Key::F(3)));
    assert!(app.auto_scroll_enabled());
    assert!(app.advance_auto_scroll(std::time::Duration::from_millis(250)));
    assert_eq!(app.text_offset(false), 1);
}
