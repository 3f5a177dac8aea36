use procora_tui::form_value::{
    dependencies_text, optional, parse_args, parse_dependencies, parse_i32_list, parse_map,
    parse_optional_u16, parse_optional_u32, parse_u16, parse_u32, require, required_value,
    split_once_text, split_text, split_words, trim_text, valid_name, FormTaskDependency,
};
use procora_tui::yaml_text::{optional_yaml, yaml_array, yaml_i32_array};

fn dependency_pairs(entries: &[(String, FormTaskDependency)]) -> Vec<(String, String)> {
    entries.iter().map(|(name, dependency)| (name.clone(), dependency.condition.clone())).collect()
}

fn pairs(items: &[(&str, &str)]) -> Vec<(String, String)> {
    items.iter().map(|(key, value)| ((*key).to_owned(), (*value).to_owned())).collect()
}

#[test]
fn required_and_optional_fields() {
    assert_eq!(trim_text("  demo \t"), "demo");
    assert_eq!(require("  ", "名称"), Err("名称 不能为空".to_owned()));
    assert_eq!(require(" x ", "名称"), Ok(()));
    assert_eq!(required_value(" demo ", "名称"), Ok("demo".to_owned()));
    assert_eq!(required_value("", "命令"), Err("命令 不能为空".to_owned()));
    assert_eq!(optional("   "), None);
    assert_eq!(optional(" ./bin "), Some("./bin".to_owned()));
}

#[test]
fn unsigned_numbers_and_ports() {
    assert_eq!(parse_u32(" 42 ", "重启次数"), Ok(42));
    assert_eq!(parse_u32("+7", "重启次数"), Ok(7));
    assert_eq!(parse_u32("4294967295", "重启次数"), Ok(u32::MAX));
    assert_eq!(parse_u32("4294967296", "重启次数"), Err("重启次数 必须是非负整数".to_owned()));
    assert_eq!(parse_u32("-1", "重启次数"), Err("重启次数 必须是非负整数".to_owned()));
    assert_eq!(parse_u32("", "重启次数"), Err("重启次数 必须是非负整数".to_owned()));
    assert_eq!(parse_u16("8080", "端口"), Ok(8080));
    assert_eq!(parse_u16("65536", "端口"), Err("端口 必须是 0–65535 的整数".to_owned()));
    assert_eq!(parse_optional_u16("  ", "端口"), Ok(None));
    assert_eq!(parse_optional_u16(" 443 ", "端口"), Ok(Some(443)));
    assert_eq!(parse_optional_u16("x", "端口"), Err("端口 必须是 0–65535 的整数".to_owned()));
    assert_eq!(parse_optional_u32("", "上限"), Ok(None));
    assert_eq!(parse_optional_u32("12", "上限"), Ok(Some(12)));
}

#[test]
fn stable_names() {
    assert!(valid_name("api-1.v_2"));
    assert!(!valid_name("bad name"));
    assert!(!valid_name(""));
    assert!(!valid_name("服务"));
}

#[test]
fn splitting_texts() {
    assert_eq!(split_text("a,,b", ','), vec!["a", "", "b"]);
    assert_eq!(split_text("", ','), vec![""]);
    assert_eq!(split_once_text("k=v=w", '='), Some(("k".to_owned(), "v=w".to_owned())));
    assert_eq!(split_once_text("kv", '='), None);
    assert_eq!(split_words("  run   --port\t8080 "), vec!["run", "--port", "8080"]);
    assert!(split_words("   ").is_empty());
}

#[test]
fn dependencies_are_parsed_in_name_order() {
    let entries =
        parse_dependencies("web:healthy, db , ,cache:process_completed_successfully").unwrap();
    assert_eq!(
        dependency_pairs(&entries),
        pairs(&[("cache", "completed_successfully"), ("db", "started"), ("web", "healthy")])
    );
    assert_eq!(dependencies_text(&entries), "cache:completed_successfully,db:started,web:healthy");
    assert!(parse_dependencies("  ").unwrap().is_empty());
}

#[test]
fn dependency_errors() {
    assert_eq!(
        parse_dependencies("a:nope").unwrap_err(),
        "依赖条件只能是 started、healthy 或 completed_successfully"
    );
    assert_eq!(parse_dependencies("a,a:healthy").unwrap_err(), "依赖 Task `a` 重复出现");
    assert_eq!(parse_dependencies(":healthy").unwrap_err(), "依赖 Task 不能为空");
}

#[test]
fn tables_from_pairs_and_json() {
    assert_eq!(parse_map("B=2, A = 1 ,", "环境"), Ok(pairs(&[("A", "1"), ("B", "2")])));
    assert_eq!(parse_map("A=1,A=3", "环境"), Ok(pairs(&[("A", "3")])));
    assert_eq!(parse_map("", "环境"), Ok(Vec::new()));
    assert_eq!(parse_map("novalue", "环境"), Err("环境 必须使用 KEY=VALUE 格式".to_owned()));
    assert_eq!(parse_map(" =1", "环境"), Err("环境 不能为空".to_owned()));
    assert_eq!(
        parse_map(r#"{"b":"2","a":"1"}"#, "环境"),
        Ok(pairs(&[("a", "1"), ("b", "2")]))
    );
    assert!(parse_map("{bad", "环境").unwrap_err().starts_with("环境 JSON 无效："));
}

#[test]
fn argument_lists() {
    assert_eq!(parse_args("  run --port 8080 ", "参数"), Ok(vec!["run".to_owned(), "--port".to_owned(), "8080".to_owned()]));
    assert_eq!(parse_args(r#"["a b", "c"]"#, "参数"), Ok(vec!["a b".to_owned(), "c".to_owned()]));
    assert_eq!(parse_args("", "参数"), Ok(Vec::new()));
    assert!(parse_args("[1]", "参数").unwrap_err().starts_with("参数 JSON 无效："));
}

#[test]
fn integer_lists() {
    assert_eq!(parse_i32_list("0, 1 2", "退出码"), Ok(vec![0, 1, 2]));
    assert_eq!(parse_i32_list("[3, 4]", "退出码"), Ok(vec![3, 4]));
    assert_eq!(parse_i32_list("", "退出码"), Ok(Vec::new()));
    assert_eq!(parse_i32_list("1,x", "退出码"), Err("退出码 必须是整数数组".to_owned()));
    assert_eq!(parse_i32_list("1,-2", "退出码"), Err("退出码不能包含负数".to_owned()));
    assert_eq!(parse_i32_list("[-2]", "退出码"), Err("退出码不能包含负数".to_owned()));
    assert!(parse_i32_list("[oops", "退出码").unwrap_err().starts_with("退出码 JSON 无效："));
}

#[test]
fn yaml_lines() {
    let mut text = String::new();
    optional_yaml(&mut text, 2, "cwd", Some("./app \"x\""));
    optional_yaml(&mut text, 2, "env_file", None);
    assert_eq!(text, "  cwd: \"./app \\\"x\\\"\"\n");
    let mut list = String::new();
    yaml_array(&mut list, 4, "args", &["--port".to_owned(), "80".to_owned()]);
    yaml_array(&mut list, 4, "empty", &[]);
    assert_eq!(list, "    args:\n      - \"--port\"\n      - \"80\"\n");
    let mut codes = String::new();
    yaml_i32_array(&mut codes, 0, "success_exit_codes", &[0, -1]);
    assert_eq!(codes, "success_exit_codes:\n  - 0\n  - -1\n");
}

#[test]
fn written_dependencies_parse_back() {
    let entries = parse_dependencies("worker:started,api:healthy,setup:completed_successfully").unwrap();
    let text = dependencies_text(&entries);
    assert_eq!(text, "api:healthy,setup:completed_successfully,worker:started");
    let again = parse_dependencies(&text).unwrap();
    assert_eq!(dependency_pairs(&again), dependency_pairs(&entries));
    assert!(parse_dependencies(&dependencies_text(&[])).unwrap().is_empty());
}
