use procora_tui::form_dependency::{FormDependency, FormVerify};
use procora_tui::form_dialog::Dialog;

fn advanced_dependency() -> FormDependency {
    let mut dependency = FormDependency::default_value();
    dependency.source = "https://example.com/tool.tgz".to_owned();
    dependency.mirrors = vec!["m1".to_owned()];
    dependency.unpack = "never".to_owned();
    dependency.download.retries = 3;
    dependency.download.max_bytes = 1024;
    dependency.download.headers = vec![("A".to_owned(), "1".to_owned())];
    dependency.ssh.identity_file = Some("id".to_owned());
    dependency.verify = Some(FormVerify {
        command: Some("tool".to_owned()),
        args: vec!["-V".to_owned()],
        contains: None,
    });
    dependency
}

fn values(dialog: &Dialog) -> Vec<String> {
    dialog.fields().into_iter().map(|(_, value, _)| value).collect()
}

#[test]
fn advanced_dialog_shows_every_policy_field() {
    let dialog = Dialog::dependency_advanced("tool", &advanced_dependency(), "30s");
    assert_eq!(dialog.title(), "高级下载与 SSH 策略");
    assert!(!dialog.is_dirty());
    assert_eq!(
        values(&dialog),
        vec![
            "[\"m1\"]", "never", "3", "30s", "1024", "{\"A\":\"1\"}", "id", "", "tool", "[\"-V\"]", "",
        ]
    );
    let labels: Vec<String> = dialog.fields().into_iter().map(|(label, _, _)| label).collect();
    assert_eq!(labels[5], "HTTP 请求头（按 F4 编辑键值表）");
    let plain = Dialog::dependency_advanced("tool", &FormDependency::default_value(), "2m");
    assert_eq!(values(&plain)[0], "[]");
    assert_eq!(values(&plain)[1], "auto");
    assert_eq!(values(&plain)[2], "2");
    assert_eq!(values(&plain)[4], "2147483648");
    assert_eq!(values(&plain)[5], "{}");
    assert_eq!(values(&plain)[9], "[]");
}

#[test]
fn advanced_dialog_reads_back_the_policy() {
    let dialog = Dialog::dependency_advanced("tool", &advanced_dependency(), "30s");
    let baseline = FormDependency::default_value();
    let dependency = dialog.advanced_dependency(&baseline, Ok(30_000)).unwrap();
    assert_eq!(dependency.mirrors, vec!["m1".to_owned()]);
    assert_eq!(dependency.unpack, "never");
    assert_eq!(dependency.download.retries, 3);
    assert_eq!(dependency.download.timeout_ms, 30_000);
    assert_eq!(dependency.download.max_bytes, 1024);
    assert_eq!(dependency.download.headers, vec![("A".to_owned(), "1".to_owned())]);
    assert_eq!(dependency.ssh.identity_file, Some("id".to_owned()));
    assert_eq!(dependency.ssh.known_hosts_file, None);
    let verify = dependency.verify.unwrap();
    assert_eq!(verify.command, Some("tool".to_owned()));
    assert_eq!(verify.args, vec!["-V".to_owned()]);
    assert_eq!(verify.contains, None);
    assert_eq!(dependency.source, baseline.source);
    assert_eq!(dependency.kind, "auto");
}

#[test]
fn advanced_dialog_errors_in_field_order() {
    let mut dialog = Dialog::dependency_advanced("tool", &advanced_dependency(), "30s");
    let baseline = FormDependency::default_value();
    assert_eq!(
        dialog.advanced_dependency(&baseline, Err("bad".to_owned())).unwrap_err(),
        "单次总超时无效：bad"
    );
    dialog.next_field(true);
    dialog.next_field(true);
    dialog.insert('0');
    dialog.insert('0');
    assert_eq!(
        dialog.advanced_dependency(&baseline, Err("bad".to_owned())).unwrap_err(),
        "失败重试次数必须是 0 到 255 的整数"
    );
    dialog.backspace();
    dialog.next_field(true);
    dialog.next_field(true);
    dialog.insert('x');
    assert_eq!(
        dialog.advanced_dependency(&baseline, Ok(1)).unwrap_err(),
        "最大下载字节必须是非负整数"
    );
}

#[test]
fn empty_verification_fields_mean_no_check() {
    let mut dependency = advanced_dependency();
    dependency.verify = None;
    let dialog = Dialog::dependency_advanced("tool", &dependency, "30s");
    let read = dialog.advanced_dependency(&FormDependency::default_value(), Ok(30_000)).unwrap();
    assert!(read.verify.is_none());
}

#[test]
fn basic_dialog_reads_back_name_and_fields() {
    assert_eq!(
        Dialog::new_dependency().basic_dependency(&FormDependency::default_value()).unwrap_err(),
        "依赖名称 不能为空"
    );
    let mut unnamed_source = FormDependency::default_value();
    unnamed_source.version = "source".to_owned();
    assert_eq!(
        Dialog::dependency(Some("tool"), &unnamed_source)
            .basic_dependency(&unnamed_source)
            .unwrap_err(),
        "来源 不能为空"
    );
    let baseline = advanced_dependency();
    let (name, dependency) =
        Dialog::dependency(Some(" tool "), &baseline).basic_dependency(&baseline).unwrap();
    assert_eq!(name, "tool");
    assert_eq!(dependency.source, "https://example.com/tool.tgz");
    assert_eq!(dependency.version, "source");
    assert_eq!(dependency.checksum, None);
    assert_eq!(dependency.kind, "auto");
    assert_eq!(dependency.path, None);
    assert_eq!(dependency.mirrors, baseline.mirrors);
    assert_eq!(dependency.unpack, "never");
    assert_eq!(dependency.download.retries, 3);
    assert_eq!(dependency.ssh.identity_file, Some("id".to_owned()));
}
