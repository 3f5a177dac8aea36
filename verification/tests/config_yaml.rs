use procora_tui::config_yaml::{append_dependencies, append_dependency, append_task_dependencies};
use procora_tui::form_dependency::{FormDependency, FormVerify};
use procora_tui::form_value::FormTaskDependency;

fn compact(source: &str) -> FormDependency {
    let mut dependency = FormDependency::default_value();
    dependency.source = source.to_owned();
    dependency.version = "source".to_owned();
    dependency
}

#[test]
fn compact_dependency_is_its_source() {
    let mut text = String::new();
    append_dependency(&mut text, "tool", &compact("https://example.com/tool.tgz"), "2m");
    assert_eq!(text, "  \"tool\": \"https://example.com/tool.tgz\"\n");
}

#[test]
fn detailed_dependency_lists_what_differs() {
    let mut dependency = compact("https://example.com/tool.tgz");
    dependency.mirrors = vec!["https://mirror/tool.tgz".to_owned()];
    dependency.version = "1.2".to_owned();
    dependency.checksum = Some("abc".to_owned());
    dependency.unpack = "never".to_owned();
    dependency.kind = "binary".to_owned();
    dependency.download.retries = 5;
    dependency.download.timeout_ms = 30_000;
    dependency.download.headers = vec![("Authorization".to_owned(), "token".to_owned())];
    dependency.ssh.identity_file = Some("~/.ssh/id".to_owned());
    dependency.verify = Some(FormVerify {
        command: Some("tool".to_owned()),
        args: vec!["--version".to_owned()],
        contains: Some("1.2".to_owned()),
    });
    let mut text = String::new();
    append_dependency(&mut text, "tool", &dependency, "30s");
    let expected = [
        "  \"tool\":\n",
        "    source: \"https://example.com/tool.tgz\"\n",
        "    mirrors:\n",
        "      - \"https://mirror/tool.tgz\"\n",
        "    version: \"1.2\"\n",
        "    checksum: \"abc\"\n",
        "    unpack: never\n",
        "    kind: binary\n",
        "    download:\n",
        "      retries: 5\n",
        "      timeout: \"30s\"\n",
        "      headers:\n",
        "        \"Authorization\": \"token\"\n",
        "    ssh:\n",
        "      identity_file: \"~/.ssh/id\"\n",
        "    verify:\n",
        "      command: \"tool\"\n",
        "      args:\n",
        "        - \"--version\"\n",
        "      contains: \"1.2\"\n",
    ]
    .concat();
    assert_eq!(text, expected);
}

#[test]
fn only_a_changed_size_limit_is_written() {
    let mut dependency = compact("./vendor/tool");
    dependency.download.max_bytes = 1024;
    let mut text = String::new();
    append_dependency(&mut text, "local", &dependency, "2m");
    assert_eq!(
        text,
        "  \"local\":\n    source: \"./vendor/tool\"\n    download:\n      max_bytes: 1024\n"
    );
}

#[test]
fn dependency_section() {
    let mut text = String::new();
    append_dependencies(&mut text, &Vec::new(), &Vec::new());
    assert_eq!(text, "");
    append_dependencies(
        &mut text,
        &vec![("a".to_owned(), compact("x")), ("b".to_owned(), compact("y"))],
        &vec!["2m".to_owned(), "2m".to_owned()],
    );
    assert_eq!(text, "dependencies:\n  \"a\": \"x\"\n  \"b\": \"y\"\n");
}

fn waits(items: &[(&str, &str)]) -> Vec<(String, FormTaskDependency)> {
    items
        .iter()
        .map(|(name, condition)| {
            ((*name).to_owned(), FormTaskDependency { condition: (*condition).to_owned() })
        })
        .collect()
}

#[test]
fn task_dependencies_in_short_and_long_form() {
    let mut text = String::new();
    append_task_dependencies(&mut text, &Vec::new());
    assert_eq!(text, "");
    append_task_dependencies(&mut text, &waits(&[("db", "started"), ("cache", "started")]));
    assert_eq!(text, "    depends_on: [\"db\", \"cache\"]\n");
    let mut long = String::new();
    append_task_dependencies(&mut long, &waits(&[("db", "healthy"), ("cache", "started")]));
    assert_eq!(long, "    depends_on:\n      \"db\": healthy\n      \"cache\": started\n");
}
