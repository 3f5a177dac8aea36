use procora_tui::form_config::{yaml, ConfigTexts, FormConfig};
use procora_tui::form_dialog::Dialog;
use procora_tui::form_profile::ProfileSet;
use procora_tui::form_field::field;
use procora_tui::form_task::{
    apply_inheritable_fields, task_fields, DurationReadings, FormTask, TaskDurationTexts, ValueOrigin,
};
use procora_tui::form_health::{
    commit_health, health_fields, FormHealthCheck, FormHttpHealthCheck, HealthDurationTexts, HealthReadings,
};
use procora_tui::form_value::FormTaskDependency;

fn base_task() -> FormTask {
    FormTask {
        extends: None,
        command: "./server".to_owned(),
        args: vec!["--port".to_owned(), "80".to_owned()],
        cwd: Some("app".to_owned()),
        env_file: None,
        env: vec![("A".to_owned(), "1".to_owned())],
        success_exit_codes: vec![0],
        depends_on: vec![("db".to_owned(), FormTaskDependency { condition: "healthy".to_owned() })],
        restart: "never".to_owned(),
        restart_delay_ms: 500,
        max_restarts: 0,
        restart_reset_after_ms: 60_000,
        shutdown_timeout_ms: 5_000,
        healthcheck: None,
        uploads: None,
        origins: vec![("command".to_owned(), ValueOrigin::Task)],
    }
}

fn durations() -> TaskDurationTexts {
    TaskDurationTexts {
        restart_delay: "500ms".to_owned(),
        restart_reset_after: "1m".to_owned(),
        shutdown_timeout: "5s".to_owned(),
    }
}

fn health_durations() -> HealthDurationTexts {
    HealthDurationTexts { initial_delay: "0ms".to_owned(), period: "10s".to_owned(), timeout: "1s".to_owned() }
}

fn values(fields: &[procora_tui::form_field::DialogField]) -> Vec<String> {
    fields.iter().map(|field| field.value.clone()).collect()
}

#[test]
fn task_fields_show_only_declared_overrides() {
    let fields = task_fields(Some("web"), &base_task(), &durations());
    assert_eq!(
        values(&fields),
        vec![
            "web", "./server", "[]", "", "", "{\"A\":\"1\"}", "db:healthy", "", "inherit", "", "", "",
            "", "",
        ]
    );
    assert_eq!(fields[8].choices, vec!["inherit", "never", "on-failure", "always"]);
    let mut task = base_task();
    task.set_origin("args", ValueOrigin::Task);
    task.set_origin("cwd", ValueOrigin::Task);
    task.set_origin("success_exit_codes", ValueOrigin::Task);
    task.set_origin("restart", ValueOrigin::Task);
    task.set_origin("restart_delay_ms", ValueOrigin::Task);
    task.set_origin("max_restarts", ValueOrigin::Task);
    task.set_origin("shutdown_timeout_ms", ValueOrigin::Profile);
    task.success_exit_codes = vec![0, -2];
    let fields = task_fields(None, &task, &durations());
    assert_eq!(
        values(&fields),
        vec![
            "", "./server", "[\"--port\",\"80\"]", "app", "", "{\"A\":\"1\"}", "db:healthy", "[0,-2]",
            "never", "500ms", "0", "", "", "",
        ]
    );
    assert_eq!(task.origin("shutdown_timeout_ms"), ValueOrigin::Profile);
    assert_eq!(task.origin("extends"), ValueOrigin::BuiltIn);
    assert!(task.explicit("command"));
    assert!(!task.explicit("shutdown_timeout_ms"));
    let dialog = Dialog::task(Some("web"), &base_task(), &durations());
    assert_eq!(dialog.title(), "编辑 Task");
    assert_eq!(dialog.fields().len(), 14);
}

fn readings(delay: Result<u64, String>) -> DurationReadings {
    DurationReadings {
        restart_delay: delay,
        restart_reset_after: Ok(120_000),
        shutdown_timeout: Err("bad".to_owned()),
    }
}

fn dialog_fields(edits: &[(usize, &str)]) -> Vec<procora_tui::form_field::DialogField> {
    let mut fields = task_fields(Some("web"), &base_task(), &durations());
    for (index, value) in edits {
        let label = fields[*index].label.clone();
        fields[*index] = field(&label, value, &[]);
    }
    fields
}

#[test]
fn blank_fields_inherit_and_filled_fields_override() {
    let mut task = base_task();
    let fields = dialog_fields(&[(7, " 0, 3 "), (8, "always"), (9, "2s"), (10, " 4 "), (11, "2m")]);
    assert_eq!(apply_inheritable_fields(&fields, &mut task, &readings(Ok(2_000))), Ok(()));
    assert_eq!(task.cwd, None);
    assert_eq!(task.origin("cwd"), ValueOrigin::BuiltIn);
    assert_eq!(task.success_exit_codes, vec![0, 3]);
    assert_eq!(task.restart, "always");
    assert_eq!(task.restart_delay_ms, 2_000);
    assert_eq!(task.max_restarts, 4);
    assert_eq!(task.restart_reset_after_ms, 120_000);
    assert_eq!(task.shutdown_timeout_ms, 5_000);
    assert!(task.explicit("success_exit_codes"));
    assert!(task.explicit("restart"));
    assert!(task.explicit("restart_delay_ms"));
    assert!(task.explicit("max_restarts"));
    assert!(task.explicit("restart_reset_after_ms"));
    assert_eq!(task.origin("shutdown_timeout_ms"), ValueOrigin::BuiltIn);
    assert!(task.explicit("command"));
}

#[test]
fn the_first_unreadable_field_stops_after_the_earlier_ones() {
    let mut task = base_task();
    let fields = dialog_fields(&[(7, "1,-1"), (9, "x")]);
    assert_eq!(
        apply_inheritable_fields(&fields, &mut task, &readings(Err("?".to_owned()))),
        Err("成功退出码不能包含负数".to_owned())
    );
    assert_eq!(task.success_exit_codes, vec![0]);
    assert_eq!(task.cwd, None);
    assert_eq!(task.origin("cwd"), ValueOrigin::BuiltIn);
    assert!(!task.explicit("success_exit_codes"));
    let fields = dialog_fields(&[(9, "x")]);
    assert_eq!(
        apply_inheritable_fields(&fields, &mut task, &readings(Err("unknown unit".to_owned()))),
        Err("重启等待无效：unknown unit".to_owned())
    );
    let fields = dialog_fields(&[(10, "-1")]);
    assert_eq!(
        apply_inheritable_fields(&fields, &mut task, &readings(Ok(1))),
        Err("最大重启次数 必须是非负整数".to_owned())
    );
    let fields = dialog_fields(&[(12, "soon")]);
    assert_eq!(
        apply_inheritable_fields(&fields, &mut task, &readings(Ok(1))),
        Err("停止超时无效：bad".to_owned())
    );
    assert_eq!(task.restart, "never");
    assert_eq!(task.origin("restart"), ValueOrigin::BuiltIn);
    assert_eq!(task.max_restarts, 0);
    assert_eq!(task.restart_reset_after_ms, 60_000);
    assert_eq!(task.origin("restart_reset_after_ms"), ValueOrigin::BuiltIn);
    assert_eq!(task.origin("shutdown_timeout_ms"), ValueOrigin::BuiltIn);
}

#[test]
fn task_yaml_writes_declared_settings() {
    let mut text = String::new();
    procora_tui::config_yaml::append_task_yaml(&mut text, "web", &base_task(), &durations(), &health_durations());
    assert_eq!(
        text,
        "  \"web\":\n    command: [\"./server\",\"--port\",\"80\"]\n    env:\n      \"A\": \"1\"\n    depends_on:\n      \"db\": healthy\n"
    );
    let mut task = base_task();
    task.args = Vec::new();
    task.env = Vec::new();
    task.depends_on = Vec::new();
    task.extends = Some("base".to_owned());
    task.success_exit_codes = vec![0, 2];
    for name in ["args", "cwd", "success_exit_codes", "restart", "restart_delay_ms", "max_restarts"] {
        task.set_origin(name, ValueOrigin::Task);
    }
    let mut text = String::new();
    procora_tui::config_yaml::append_task_yaml(&mut text, "web", &task, &durations(), &health_durations());
    let expected = [
        "  \"web\":\n",
        "    extends: \"base\"\n",
        "    command: \"./server\"\n",
        "    args: []\n",
        "    cwd: \"app\"\n",
        "    success_exit_codes:\n",
        "      - 0\n",
        "      - 2\n",
        "    restart: never\n",
        "    restart_delay: \"500ms\"\n",
        "    max_restarts: 0\n",
    ]
    .concat();
    assert_eq!(text, expected);
}

#[test]
fn configuration_head_and_tasks_section() {
    let mut text = String::new();
    let vars = vec![("region".to_owned(), "eu".to_owned())];
    procora_tui::config_yaml::append_config_head(&mut text, 1, "demo", &vars, &Some("dev".to_owned()));
    assert_eq!(text, "version: 1\nproject: \"demo\"\nvars:\n  \"region\": \"eu\"\nprofile: \"dev\"\n");
    let mut text = String::new();
    procora_tui::config_yaml::append_config_head(&mut text, 2, "demo", &Vec::new(), &None);
    assert_eq!(text, "version: 2\nproject: \"demo\"\n");
    let mut text = String::new();
    procora_tui::config_yaml::append_map_section(&mut text, "env", &vec![("A".to_owned(), "1".to_owned())]);
    assert_eq!(text, "env:\n  \"A\": \"1\"\n");
    let mut text = String::new();
    procora_tui::config_yaml::append_map_section(&mut text, "env", &Vec::new());
    assert_eq!(text, "");
    let mut text = String::new();
    procora_tui::config_yaml::append_tasks(&mut text, &vec![("web".to_owned(), base_task())], &vec![durations()], &vec![health_durations()]);
    assert_eq!(
        text,
        "tasks:\n  \"web\":\n    command: [\"./server\",\"--port\",\"80\"]\n    env:\n      \"A\": \"1\"\n    depends_on:\n      \"db\": healthy\n"
    );
}

#[test]
fn quoted_texts_escape_quotes_backslashes_and_controls() {
    let mut text = String::new();
    procora_tui::config_yaml::append_config_head(&mut text, 1, "a\"b\\c\n\u{1}é", &Vec::new(), &None);
    assert_eq!(text, "version: 1\nproject: \"a\\\"b\\\\c\\n\\u0001é\"\n");
}

fn project_defaults() -> procora_tui::task_defaults::FormTaskDefaults {
    procora_tui::task_defaults::FormTaskDefaults {
        cwd: Some("srv".to_owned()),
        env: vec![("A".to_owned(), "1".to_owned())],
        success_exit_codes: Some(vec![0, 3]),
        restart: Some("always".to_owned()),
        restart_delay_ms: Some(250),
        max_restarts: Some(4),
        restart_reset_after_ms: None,
        shutdown_timeout_ms: Some(1000),
    }
}

#[test]
fn task_defaults_section() {
    let mut text = String::new();
    project_defaults().append_yaml(&mut text);
    let expected = [
        "task_defaults:\n",
        "  cwd: \"srv\"\n",
        "  env:\n",
        "    \"A\": \"1\"\n",
        "  success_exit_codes:\n",
        "    - 0\n",
        "    - 3\n",
        "  restart: always\n",
        "  restart_delay_ms: 250\n",
        "  max_restarts: 4\n",
        "  shutdown_timeout_ms: 1000\n",
    ]
    .concat();
    assert_eq!(text, expected);
    let empty = procora_tui::task_defaults::FormTaskDefaults {
        cwd: None,
        env: Vec::new(),
        success_exit_codes: None,
        restart: None,
        restart_delay_ms: None,
        max_restarts: None,
        restart_reset_after_ms: None,
        shutdown_timeout_ms: None,
    };
    assert!(empty.is_empty());
    assert!(!project_defaults().is_empty());
    let mut text = String::new();
    empty.append_yaml(&mut text);
    assert_eq!(text, "");
}

#[test]
fn task_defaults_fill_only_inherited_settings() {
    let mut task = base_task();
    task.set_origin("restart", ValueOrigin::Task);
    project_defaults().apply_to(&mut task);
    assert_eq!(task.cwd.as_deref(), Some("srv"));
    assert_eq!(task.success_exit_codes, vec![0, 3]);
    assert_eq!(task.restart, "never");
    assert_eq!(task.restart_delay_ms, 250);
    assert_eq!(task.max_restarts, 4);
    assert_eq!(task.restart_reset_after_ms, 60_000);
    assert_eq!(task.shutdown_timeout_ms, 1000);
    assert!(task.origin("cwd") == ValueOrigin::TaskDefaults);
    assert!(task.origin("restart") == ValueOrigin::Task);
    assert!(task.origin("restart_reset_after_ms") == ValueOrigin::BuiltIn);
    assert!(task.origin("command") == ValueOrigin::Task);
}

#[test]
fn task_defaults_summary_lists_declared_settings() {
    assert_eq!(project_defaults().summary(), "cwd、env(1)、成功退出码、重启策略、重启等待、重启上限、停止超时");
    let mut defaults = project_defaults();
    defaults.cwd = None;
    defaults.env = Vec::new();
    defaults.success_exit_codes = None;
    defaults.restart = None;
    defaults.restart_delay_ms = None;
    defaults.max_restarts = None;
    defaults.shutdown_timeout_ms = None;
    assert_eq!(defaults.summary(), "未配置");
    defaults.restart_reset_after_ms = Some(10);
    assert_eq!(defaults.summary(), "计数重置");
}

fn health_readings() -> HealthReadings {
    HealthReadings { initial_delay: Ok(0), period: Ok(10_000), timeout: Ok(1_000) }
}

#[test]
fn health_fields_start_from_the_defaults() {
    let fields = health_fields(&base_task(), &health_durations());
    assert_eq!(
        values(&fields),
        vec!["none", "", "[]", "", "http", "127.0.0.1", "", "/", "{}", "200", "0ms", "10s", "1s", "1", "3"]
    );
    assert_eq!(fields[0].choices, vec!["none", "exec", "http"]);
    assert_eq!(fields[4].choices, vec!["http", "https"]);
    assert_eq!(base_task().health_label(), "未配置");
}

#[test]
fn exec_health_check_is_committed() {
    let mut task = base_task();
    let mut fields = health_fields(&task, &health_durations());
    fields[0].value = "exec".to_owned();
    fields[1].value = " ./check ".to_owned();
    fields[2].value = "--fast now".to_owned();
    assert!(commit_health(&fields, &mut task, &health_readings()).is_ok());
    let health = task.healthcheck.clone().unwrap();
    assert_eq!(health.command.as_deref(), Some("./check"));
    assert_eq!(health.args, vec!["--fast", "now"]);
    assert!(health.http_get.is_none());
    assert_eq!(health.period_ms, 10_000);
    assert_eq!(health.failure_threshold, 3);
    assert!(task.origin("healthcheck") == ValueOrigin::Task);
    assert_eq!(task.health_label(), "Exec");
    let shown = health_fields(&task, &health_durations());
    assert_eq!(shown[0].value, "exec");
    assert_eq!(shown[2].value, "[\"--fast\",\"now\"]");
    let mut text = String::new();
    procora_tui::config_yaml::append_health_yaml(&mut text, &health, &health_durations());
    let expected = [
        "    healthcheck:\n",
        "      command: \"./check\"\n",
        "      args:\n",
        "        - \"--fast\"\n",
        "        - \"now\"\n",
        "      initial_delay: \"0ms\"\n",
        "      period: \"10s\"\n",
        "      timeout: \"1s\"\n",
        "      success_threshold: 1\n",
        "      failure_threshold: 3\n",
    ]
    .concat();
    assert_eq!(text, expected);
}

#[test]
fn http_health_check_is_committed_and_cleared() {
    let mut task = base_task();
    let mut fields = health_fields(&task, &health_durations());
    fields[0].value = "http".to_owned();
    fields[6].value = "8080".to_owned();
    fields[7].value = "/ready".to_owned();
    fields[8].value = "{\"X\":\"1\"}".to_owned();
    assert!(commit_health(&fields, &mut task, &health_readings()).is_ok());
    let health: FormHealthCheck = task.healthcheck.clone().unwrap();
    let http: FormHttpHealthCheck = health.http_get.clone().unwrap();
    assert_eq!(http.scheme, "http");
    assert_eq!(http.host, "127.0.0.1");
    assert_eq!(http.port, Some(8080));
    assert_eq!(http.path, "/ready");
    assert_eq!(http.headers, vec![("X".to_owned(), "1".to_owned())]);
    assert_eq!(http.status_code, 200);
    assert_eq!(task.health_label(), "HTTP GET");
    let mut text = String::new();
    procora_tui::config_yaml::append_health_yaml(&mut text, &health, &health_durations());
    let expected = [
        "    healthcheck:\n",
        "      http_get:\n",
        "        scheme: http\n",
        "        host: \"127.0.0.1\"\n",
        "        port: 8080\n",
        "        path: \"/ready\"\n",
        "        headers:\n",
        "          \"X\": \"1\"\n",
        "        status_code: 200\n",
        "      initial_delay: \"0ms\"\n",
        "      period: \"10s\"\n",
        "      timeout: \"1s\"\n",
        "      success_threshold: 1\n",
        "      failure_threshold: 3\n",
    ]
    .concat();
    assert_eq!(text, expected);
    let mut fields = health_fields(&task, &health_durations());
    fields[0].value = "none".to_owned();
    assert!(commit_health(&fields, &mut task, &health_readings()).is_ok());
    assert!(task.healthcheck.is_none());
    assert!(task.origin("healthcheck") == ValueOrigin::BuiltIn);
}

#[test]
fn health_check_errors_leave_the_task_alone() {
    let mut task = base_task();
    let mut fields = health_fields(&task, &health_durations());
    fields[0].value = "exec".to_owned();
    assert_eq!(commit_health(&fields, &mut task, &health_readings()), Err("Exec 命令 不能为空".to_owned()));
    assert!(task.healthcheck.is_none());
    fields[1].value = "./check".to_owned();
    let bad = HealthReadings { initial_delay: Ok(0), period: Err("bad".to_owned()), timeout: Ok(1) };
    assert_eq!(commit_health(&fields, &mut task, &bad), Err("检查周期无效：bad".to_owned()));
    fields[14].value = "x".to_owned();
    assert_eq!(commit_health(&fields, &mut task, &health_readings()), Err("连续失败阈值 必须是非负整数".to_owned()));
    fields[0].value = "tcp".to_owned();
    assert_eq!(
        commit_health(&fields, &mut task, &health_readings()),
        Err("健康检查类型只能是 none、exec 或 http".to_owned())
    );
    fields[0].value = "http".to_owned();
    fields[9].value = "70000".to_owned();
    assert_eq!(
        commit_health(&fields, &mut task, &health_readings()),
        Err("HTTP 预期状态码 必须是 0–65535 的整数".to_owned())
    );
    assert!(task.healthcheck.is_none());
}

#[test]
fn health_dialog_holds_the_health_fields() {
    let dialog = Dialog::health("web", &base_task(), &health_durations());
    assert_eq!(dialog.title(), "编辑健康检查");
    assert_eq!(dialog.fields().len(), 6);
}

#[test]
fn whole_configuration_yaml() {
    let mut task = base_task();
    task.uploads = Some("{\"site\":{\"to\":\"/srv\"}}".to_owned());
    let config = FormConfig {
        version: 1,
        project: "demo".to_owned(),
        vars: Vec::new(),
        profiles: ProfileSet { profiles: Vec::new(), active: None },
        env: vec![("A".to_owned(), "1".to_owned())],
        task_defaults: procora_tui::task_defaults::FormTaskDefaults {
            cwd: None,
            env: Vec::new(),
            success_exit_codes: None,
            restart: None,
            restart_delay_ms: None,
            max_restarts: None,
            restart_reset_after_ms: None,
            shutdown_timeout_ms: Some(9_000),
        },
        dependencies: Vec::new(),
        tasks: vec![("web".to_owned(), task)],
    };
    let texts = ConfigTexts {
        profiles: "{}".to_owned(),
        templates: Some("{\"base\":{\"command\":\"run\"}}".to_owned()),
        uploads: None,
        inactive_tasks: vec![("batch".to_owned(), "{\"command\":\"job\"}".to_owned())],
        dependency_timeouts: Vec::new(),
        task_durations: vec![durations()],
        health_durations: vec![health_durations()],
    };
    let expected = [
        "version: 1\n",
        "project: \"demo\"\n",
        "env:\n",
        "  \"A\": \"1\"\n",
        "task_defaults:\n",
        "  shutdown_timeout_ms: 9000\n",
        "task_templates: {\"base\":{\"command\":\"run\"}}\n",
        "tasks:\n",
        "  \"web\":\n",
        "    command: [\"./server\",\"--port\",\"80\"]\n",
        "    env:\n",
        "      \"A\": \"1\"\n",
        "    depends_on:\n",
        "      \"db\": healthy\n",
        "    uploads: {\"site\":{\"to\":\"/srv\"}}\n",
        "  \"batch\": {\"command\":\"job\"}\n",
    ]
    .concat();
    assert_eq!(yaml(&config, &texts), expected);
}
