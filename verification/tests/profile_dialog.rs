use procora_tui::form_profile::{
    commit_profile, profile_fields, FormProfile, ProfileDurationTexts, ProfileReadings, ProfileSet,
};
use procora_tui::task_defaults::FormTaskDefaults;

fn no_defaults() -> FormTaskDefaults {
    FormTaskDefaults {
        cwd: None,
        env: Vec::new(),
        success_exit_codes: None,
        restart: None,
        restart_delay_ms: None,
        max_restarts: None,
        restart_reset_after_ms: None,
        shutdown_timeout_ms: None,
    }
}

fn profile(extends: Option<&str>) -> FormProfile {
    FormProfile { extends: extends.map(str::to_owned), tasks: None, env: Vec::new(), task_defaults: no_defaults() }
}

fn blank_texts() -> ProfileDurationTexts {
    ProfileDurationTexts {
        restart_delay: String::new(),
        restart_reset_after: String::new(),
        shutdown_timeout: String::new(),
    }
}

fn readings() -> ProfileReadings {
    ProfileReadings { restart_delay: Ok(0), restart_reset_after: Ok(0), shutdown_timeout: Ok(0) }
}

fn project() -> ProfileSet {
    ProfileSet {
        profiles: vec![("base".to_owned(), profile(None)), ("prod".to_owned(), profile(Some("base")))],
        active: Some("prod".to_owned()),
    }
}

fn declared() -> Vec<String> {
    vec!["db".to_owned(), "web".to_owned()]
}

fn names(set: &ProfileSet) -> Vec<String> {
    set.names()
}

fn values(fields: &[procora_tui::form_field::DialogField]) -> Vec<String> {
    fields.iter().map(|field| field.value.clone()).collect()
}

#[test]
fn new_profile_fields() {
    let set = project();
    let fields = profile_fields(None, &profile(None), &set.names(), &blank_texts());
    assert_eq!(values(&fields), vec!["", "none", "", "{}", "", "{}", "", "default", "", "", "", ""]);
    assert_eq!(fields[1].choices, vec!["none", "base", "prod"]);
    assert_eq!(fields[7].choices, vec!["default", "never", "on-failure", "always"]);
}

#[test]
fn edited_profile_fields() {
    let set = project();
    let mut edited = profile(Some("base"));
    edited.tasks = Some(vec!["web".to_owned()]);
    edited.env = vec![("A".to_owned(), "1".to_owned())];
    edited.task_defaults.cwd = Some("srv".to_owned());
    edited.task_defaults.success_exit_codes = Some(vec![0, 2]);
    edited.task_defaults.restart = Some("always".to_owned());
    edited.task_defaults.max_restarts = Some(5);
    let texts = ProfileDurationTexts {
        restart_delay: "1s".to_owned(),
        restart_reset_after: String::new(),
        shutdown_timeout: String::new(),
    };
    let fields = profile_fields(Some("prod"), &edited, &set.names(), &texts);
    assert_eq!(
        values(&fields),
        vec!["prod", "base", "[\"web\"]", "{\"A\":\"1\"}", "srv", "{}", "[0,2]", "always", "1s", "5", "", ""]
    );
    assert_eq!(fields[1].choices, vec!["none", "base"]);
}

#[test]
fn new_profile_is_stored_in_name_order() {
    let mut set = project();
    let mut fields = profile_fields(None, &profile(None), &set.names(), &blank_texts());
    fields[0].value = " dev ".to_owned();
    fields[1].value = "base".to_owned();
    fields[2].value = "web db".to_owned();
    fields[3].value = "B=2".to_owned();
    fields[9].value = "4".to_owned();
    assert!(commit_profile(None, &fields, &mut set, &declared(), &readings()).is_ok());
    assert_eq!(names(&set), vec!["base", "dev", "prod"]);
    let dev = &set.profiles[1].1;
    assert_eq!(dev.extends.as_deref(), Some("base"));
    assert_eq!(dev.tasks, Some(vec!["web".to_owned(), "db".to_owned()]));
    assert_eq!(dev.env, vec![("B".to_owned(), "2".to_owned())]);
    assert_eq!(dev.task_defaults.max_restarts, Some(4));
    assert!(dev.task_defaults.restart.is_none());
    assert_eq!(set.active.as_deref(), Some("prod"));
}

#[test]
fn renaming_a_profile_moves_its_references() {
    let mut set = project();
    let fields = {
        let mut fields = profile_fields(Some("base"), &profile(None), &set.names(), &blank_texts());
        fields[0].value = "root".to_owned();
        fields
    };
    set.active = Some("base".to_owned());
    assert!(commit_profile(Some("base"), &fields, &mut set, &declared(), &readings()).is_ok());
    assert_eq!(names(&set), vec!["prod", "root"]);
    assert_eq!(set.profiles[0].1.extends.as_deref(), Some("root"));
    assert_eq!(set.active.as_deref(), Some("root"));
}

#[test]
fn profile_errors_leave_the_profiles_alone() {
    let mut set = project();
    let mut fields = profile_fields(None, &profile(None), &set.names(), &blank_texts());
    let mut attempt = |fields: &Vec<procora_tui::form_field::DialogField>, original: Option<&str>| {
        commit_profile(original, fields, &mut set, &declared(), &readings())
    };
    assert_eq!(attempt(&fields, None), Err("profile 名称 不能为空".to_owned()));
    fields[0].value = "bad name".to_owned();
    assert_eq!(attempt(&fields, None), Err("profile 名称只能包含 ASCII 字母、数字、点、短横线和下划线".to_owned()));
    fields[0].value = "prod".to_owned();
    assert_eq!(attempt(&fields, None), Err("profile 名称 `prod` 已存在".to_owned()));
    fields[0].value = "qa".to_owned();
    fields[1].value = "qa".to_owned();
    assert_eq!(attempt(&fields, None), Err("profile 不能继承自身".to_owned()));
    fields[0].value = "base".to_owned();
    fields[1].value = "prod".to_owned();
    assert_eq!(attempt(&fields, Some("base")), Err("profile 继承形成循环：base -> prod".to_owned()));
    fields[0].value = "qa".to_owned();
    fields[1].value = "none".to_owned();
    fields[2].value = "web web".to_owned();
    assert_eq!(attempt(&fields, None), Err("Task `web` 在白名单中重复出现".to_owned()));
    fields[2].value = "[\"nope\"]".to_owned();
    assert_eq!(attempt(&fields, None), Err("Task 白名单引用了不存在的 Task `nope`".to_owned()));
    fields[2].value = String::new();
    fields[9].value = "-1".to_owned();
    assert_eq!(attempt(&fields, None), Err("Task 默认最大重启次数 必须是非负整数".to_owned()));
    drop(attempt);
    fields[9].value = String::new();
    fields[8].value = "soon".to_owned();
    let bad = ProfileReadings { restart_delay: Err("bad".to_owned()), restart_reset_after: Ok(0), shutdown_timeout: Ok(0) };
    assert_eq!(
        commit_profile(None, &fields, &mut set, &declared(), &bad),
        Err("Task 默认重启等待无效：bad".to_owned())
    );
    assert_eq!(names(&set), vec!["base", "prod"]);
    assert_eq!(set.active.as_deref(), Some("prod"));
}

#[test]
fn profile_dialog_holds_the_profile_fields() {
    let set = project();
    let dialog = procora_tui::form_dialog::Dialog::profile(None, &profile(None), &set.names(), &blank_texts());
    assert_eq!(dialog.title(), "新建 profile");
    assert_eq!(dialog.fields().len(), 12);
    let dialog = procora_tui::form_dialog::Dialog::profile(Some("prod"), &profile(None), &set.names(), &blank_texts());
    assert_eq!(dialog.title(), "编辑 profile");
}

#[test]
fn profile_summary_and_detail() {
    let mut listed = profile(Some("base"));
    listed.tasks = Some(vec!["web".to_owned(), "db".to_owned()]);
    listed.env = vec![("A".to_owned(), "1".to_owned())];
    assert_eq!(listed.summary(), "继承 base · 2 个 Task");
    assert_eq!(profile(None).summary(), "继承 基础配置 · 全部/继承");
    assert_eq!(
        listed.detail("dev"),
        "名称：dev\n继承：base\nTask 白名单：web, db\n环境覆盖：1 项\nTask 默认覆盖：未配置"
    );
    let mut empty = profile(None);
    empty.tasks = Some(Vec::new());
    assert_eq!(
        empty.detail("qa"),
        "名称：qa\n继承：未配置\nTask 白名单：空白名单\n环境覆盖：0 项\nTask 默认覆盖：未配置"
    );
}
