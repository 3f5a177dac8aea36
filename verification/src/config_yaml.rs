//! YAML text of the parts of a configuration the structured editor writes back: managed
//! dependencies and a task's dependencies. Every string is written as a JSON string, which
//! YAML reads with the same escapes.

use vstd::prelude::*;

use crate::form_dependency::{
    FormDependency, FormDependencyDownload, FormDependencySsh, FormVerify, DEFAULT_MAX_BYTES,
    DEFAULT_RETRIES, DEFAULT_TIMEOUT_MS,
};
use crate::form_health::{FormHealthCheck, HealthDurationTexts, HealthModel};
use crate::form_value::FormTaskDependency;
use crate::json::{json_quoted, json_string_array, quoted};
use crate::number::{decimal_text, digits_of, natural_text, signed_text};
use crate::text::{append_text, joined, same_text};
use crate::yaml_text::{
    append_spaces, list_lines, optional_yaml, spaces, string_line, yaml_array, yaml_i32_array,
};

verus! {

/// A `key: "value"` line for a value that is there, nothing otherwise.
pub open spec fn optional_line(indent: int, key: Seq<char>, value: Option<Seq<char>>) -> Seq<char> {
    match value {
        Some(value) => string_line(indent, key, value),
        None => Seq::empty(),
    }
}

/// A list of strings under `key`, nothing for an empty list.
pub open spec fn list_part(indent: int, key: Seq<char>, values: Seq<Seq<char>>) -> Seq<char> {
    if values.len() == 0 {
        Seq::empty()
    } else {
        list_lines(indent, key, values.map_values(|value: Seq<char>| json_quoted(value)))
    }
}

/// Lines `"name": "value"` of a map, in order.
pub open spec fn map_lines(indent: int, entries: Seq<(Seq<char>, Seq<char>)>) -> Seq<char>
    decreases entries.len(),
{
    if entries.len() == 0 {
        Seq::empty()
    } else {
        map_lines(indent, entries.drop_last()) + spaces(indent) + json_quoted(entries.last().0)
            + ": "@ + json_quoted(entries.last().1) + "\n"@
    }
}

/// A line `key: value` whose value is written as it is, when `shown`.
pub open spec fn plain_line(shown: bool, indent: int, key: Seq<char>, value: Seq<char>) -> Seq<char> {
    if shown {
        spaces(indent) + key + ": "@ + value + "\n"@
    } else {
        Seq::empty()
    }
}

/// The entries of a list of text pairs.
pub open spec fn pair_entries(entries: Seq<(String, String)>) -> Seq<(Seq<char>, Seq<char>)> {
    entries.map_values(|entry: (String, String)| (entry.0@, entry.1@))
}

/// The download policy where it differs from the built-in one; `timeout` is the transfer
/// timeout in the configuration's duration syntax.
pub open spec fn download_part(download: FormDependencyDownload, timeout: Seq<char>) -> Seq<char> {
    if download.default_policy() {
        Seq::empty()
    } else {
        "    download:\n"@ + plain_line(
            download.retries != DEFAULT_RETRIES,
            6,
            "retries"@,
            digits_of(download.retries as nat),
        ) + (if download.timeout_ms != DEFAULT_TIMEOUT_MS {
            string_line(6, "timeout"@, timeout)
        } else {
            Seq::empty()
        }) + plain_line(
            download.max_bytes != DEFAULT_MAX_BYTES,
            6,
            "max_bytes"@,
            digits_of(download.max_bytes as nat),
        ) + (if download.headers@.len() > 0 {
            "      headers:\n"@ + map_lines(8, pair_entries(download.headers@))
        } else {
            Seq::empty()
        })
    }
}

/// The SSH files, when any is declared.
pub open spec fn ssh_part(ssh: FormDependencySsh) -> Seq<char> {
    if ssh.nothing_declared() {
        Seq::empty()
    } else {
        "    ssh:\n"@ + optional_line(6, "identity_file"@, ssh.identity_file.deep_view())
            + optional_line(6, "known_hosts_file"@, ssh.known_hosts_file.deep_view())
    }
}

/// The version check, when there is one.
pub open spec fn verify_part(verify: Option<FormVerify>) -> Seq<char> {
    match verify {
        Some(verify) => "    verify:\n"@ + optional_line(6, "command"@, verify.command.deep_view())
            + list_part(6, "args"@, verify.args.deep_view()) + optional_line(
            6,
            "contains"@,
            verify.contains.deep_view(),
        ),
        None => Seq::empty(),
    }
}

/// The version line, unless the version is the source itself.
pub open spec fn version_line(dependency: FormDependency) -> Seq<char> {
    if dependency.version@ != "source"@ {
        string_line(4, "version"@, dependency.version@)
    } else {
        Seq::empty()
    }
}

/// The fields of a dependency entry up to its kind.
pub open spec fn basic_fields(dependency: FormDependency) -> Seq<char> {
    string_line(4, "source"@, dependency.source@) + list_part(
        4,
        "mirrors"@,
        dependency.mirrors.deep_view(),
    ) + version_line(dependency) + optional_line(4, "checksum"@, dependency.checksum.deep_view())
        + plain_line(dependency.unpack@ != "auto"@, 4, "unpack"@, dependency.unpack@)
        + optional_line(4, "path"@, dependency.path.deep_view()) + plain_line(
        dependency.kind@ != "auto"@,
        4,
        "kind"@,
        dependency.kind@,
    )
}

/// The fields of a dependency entry that differ from the defaults.
pub open spec fn detailed_fields(dependency: FormDependency, timeout: Seq<char>) -> Seq<char> {
    basic_fields(dependency) + download_part(dependency.download, timeout) + ssh_part(
        dependency.ssh,
    ) + verify_part(dependency.verify)
}

/// The YAML entry of one managed dependency: its source alone when nothing else differs from
/// the defaults, else each field that does.
pub open spec fn dependency_yaml(id: Seq<char>, dependency: FormDependency, timeout: Seq<char>) -> Seq<
    char,
> {
    if dependency.compact() {
        "  "@ + json_quoted(id) + ": "@ + json_quoted(dependency.source@) + "\n"@
    } else {
        "  "@ + json_quoted(id) + ":\n"@ + detailed_fields(dependency, timeout)
    }
}

/// Appends a `key: "value"` line for a value that is there.
fn append_optional(text: &mut String, indent: usize, key: &str, value: &Option<String>)
    ensures
        final(text)@ == old(text)@ + optional_line(indent as int, key@, value.deep_view()),
{
    match value {
        Some(value) => optional_yaml(text, indent, key, Some(value.as_str())),
        None => {
            assert(old(text)@ + Seq::<char>::empty() =~= old(text)@);
        },
    }
}

/// Appends a list of strings, nothing for an empty list.
fn append_list(text: &mut String, indent: usize, key: &str, values: &Vec<String>)
    requires
        indent + 2 <= usize::MAX,
    ensures
        final(text)@ == old(text)@ + list_part(indent as int, key@, values.deep_view()),
{
    yaml_array(text, indent, key, values.as_slice());
    proof {
        assert(values@.map_values(|value: String| json_quoted(value@)) =~= values.deep_view().map_values(
            |value: Seq<char>| json_quoted(value),
        ));
        if values@.len() == 0 {
            assert(old(text)@ + Seq::<char>::empty() =~= old(text)@);
        }
    }
}

/// Appends the lines of a map.
fn append_map(text: &mut String, indent: usize, entries: &Vec<(String, String)>)
    ensures
        final(text)@ == old(text)@ + map_lines(indent as int, pair_entries(entries@)),
{
    let ghost start = text@;
    let ghost all = pair_entries(entries@);
    let mut index: usize = 0;
    assert(all.take(0) =~= Seq::<(Seq<char>, Seq<char>)>::empty());
    while index < entries.len()
        invariant
            index <= entries@.len(),
            all == pair_entries(entries@),
            text@ == start + map_lines(indent as int, all.take(index as int)),
        decreases entries@.len() - index,
    {
        assert(all.take(index + 1).drop_last() =~= all.take(index as int));
        append_spaces(text, indent);
        append_text(text, quoted(entries[index].0.as_str()).as_str());
        append_text(text, ": ");
        append_text(text, quoted(entries[index].1.as_str()).as_str());
        append_text(text, "\n");
        index += 1;
        assert(text@ =~= start + map_lines(indent as int, all.take(index as int)));
    }
    assert(all.take(entries@.len() as int) =~= all);
}

/// Appends a `key: value` line whose value is written as it is, when `shown`.
pub(crate) fn append_plain(text: &mut String, shown: bool, indent: usize, key: &str, value: &str)
    ensures
        final(text)@ == old(text)@ + plain_line(shown, indent as int, key@, value@),
{
    if shown {
        append_spaces(text, indent);
        append_text(text, key);
        append_text(text, ": ");
        append_text(text, value);
        append_text(text, "\n");
        assert(text@ =~= old(text)@ + plain_line(shown, indent as int, key@, value@));
    } else {
        assert(old(text)@ + Seq::<char>::empty() =~= old(text)@);
    }
}

/// Appends the download policy where it differs from the built-in one.
#[verifier::rlimit(40)]
fn append_download(text: &mut String, download: &FormDependencyDownload, timeout: &str)
    ensures
        final(text)@ == old(text)@ + download_part(*download, timeout@),
{
    if download.is_default() {
        assert(old(text)@ + Seq::<char>::empty() =~= old(text)@);
        return;
    }
    let ghost start = text@;
    append_text(text, "    download:\n");
    let ghost head = text@;
    append_plain(
        text,
        download.retries != DEFAULT_RETRIES,
        6,
        "retries",
        natural_text(download.retries as u64).as_str(),
    );
    let ghost after_retries = text@;
    if download.timeout_ms != DEFAULT_TIMEOUT_MS {
        optional_yaml(text, 6, "timeout", Some(timeout));
    }
    let ghost after_timeout = text@;
    append_plain(
        text,
        download.max_bytes != DEFAULT_MAX_BYTES,
        6,
        "max_bytes",
        natural_text(download.max_bytes).as_str(),
    );
    let ghost after_bytes = text@;
    if download.headers.len() > 0 {
        append_text(text, "      headers:\n");
        append_map(text, 8, &download.headers);
    }
    assert(text@ =~= start + download_part(*download, timeout@));
}

/// Appends the SSH files, when any is declared.
fn append_ssh(text: &mut String, ssh: &FormDependencySsh)
    ensures
        final(text)@ == old(text)@ + ssh_part(*ssh),
{
    if ssh.is_empty() {
        assert(old(text)@ + Seq::<char>::empty() =~= old(text)@);
        return;
    }
    let ghost start = text@;
    append_text(text, "    ssh:\n");
    append_optional(text, 6, "identity_file", &ssh.identity_file);
    append_optional(text, 6, "known_hosts_file", &ssh.known_hosts_file);
    assert(text@ =~= start + ssh_part(*ssh));
}

/// Appends the version check, when there is one.
fn append_verify(text: &mut String, verify: &Option<FormVerify>)
    ensures
        final(text)@ == old(text)@ + verify_part(*verify),
{
    match verify {
        Some(verify) => {
            let ghost start = text@;
            append_text(text, "    verify:\n");
            append_optional(text, 6, "command", &verify.command);
            append_list(text, 6, "args", &verify.args);
            append_optional(text, 6, "contains", &verify.contains);
            assert(text@ =~= start + verify_part(Some(*verify)));
        },
        None => {
            assert(old(text)@ + Seq::<char>::empty() =~= old(text)@);
        },
    }
}

/// Appends the fields of a dependency entry up to its kind.
#[verifier::rlimit(30)]
fn append_basic_fields(text: &mut String, dependency: &FormDependency)
    ensures
        final(text)@ == old(text)@ + basic_fields(*dependency),
{
    let ghost start = text@;
    optional_yaml(text, 4, "source", Some(dependency.source.as_str()));
    let ghost a = text@;
    append_list(text, 4, "mirrors", &dependency.mirrors);
    let ghost b = text@;
    let source = "source".to_owned();
    if !same_text(&dependency.version, &source) {
        optional_yaml(text, 4, "version", Some(dependency.version.as_str()));
    }
    let ghost c = text@;
    assert(c == b + version_line(*dependency));
    append_optional(text, 4, "checksum", &dependency.checksum);
    let ghost d = text@;
    let auto = "auto".to_owned();
    append_plain(
        text,
        !same_text(&dependency.unpack, &auto),
        4,
        "unpack",
        dependency.unpack.as_str(),
    );
    let ghost e = text@;
    append_optional(text, 4, "path", &dependency.path);
    let ghost f = text@;
    append_plain(text, !same_text(&dependency.kind, &auto), 4, "kind", dependency.kind.as_str());
    assert(text@ =~= start + basic_fields(*dependency));
}

/// Appends the YAML entry of one managed dependency; `timeout` is its transfer timeout in the
/// configuration's duration syntax, written only when it differs from the default.
#[verifier::rlimit(40)]
pub fn append_dependency(text: &mut String, id: &str, dependency: &FormDependency, timeout: &str)
    ensures
        final(text)@ == old(text)@ + dependency_yaml(id@, *dependency, timeout@),
{
    let ghost start = text@;
    if dependency.is_compact() {
        append_text(text, "  ");
        append_text(text, quoted(id).as_str());
        append_text(text, ": ");
        append_text(text, quoted(dependency.source.as_str()).as_str());
        append_text(text, "\n");
        assert(text@ =~= start + dependency_yaml(id@, *dependency, timeout@));
        return;
    }
    append_text(text, "  ");
    append_text(text, quoted(id).as_str());
    append_text(text, ":\n");
    let ghost head = text@;
    append_basic_fields(text, dependency);
    let ghost basic = text@;
    append_download(text, &dependency.download, timeout);
    let ghost download = text@;
    append_ssh(text, &dependency.ssh);
    let ghost ssh = text@;
    append_verify(text, &dependency.verify);
    assert(text@ =~= head + detailed_fields(*dependency, timeout@));
    assert(text@ =~= start + dependency_yaml(id@, *dependency, timeout@));
}

/// The YAML entries of managed dependencies, each with its transfer timeout text.
pub open spec fn entries_yaml(entries: Seq<(String, FormDependency)>, timeouts: Seq<String>) -> Seq<
    char,
>
    decreases entries.len(),
{
    if entries.len() == 0 {
        Seq::empty()
    } else {
        entries_yaml(entries.drop_last(), timeouts) + dependency_yaml(
            entries.last().0@,
            entries.last().1,
            timeouts[entries.len() - 1]@,
        )
    }
}

/// The managed dependencies section: nothing without dependencies.
pub open spec fn dependencies_yaml(entries: Seq<(String, FormDependency)>, timeouts: Seq<String>) -> Seq<
    char,
> {
    if entries.len() == 0 {
        Seq::empty()
    } else {
        "dependencies:\n"@ + entries_yaml(entries, timeouts)
    }
}

/// Appends the managed dependencies section; `timeouts` holds each dependency's transfer
/// timeout in the configuration's duration syntax, in the same order.
#[verifier::rlimit(80)]
pub fn append_dependencies(
    text: &mut String,
    entries: &Vec<(String, FormDependency)>,
    timeouts: &Vec<String>,
)
    requires
        entries@.len() == timeouts@.len(),
    ensures
        final(text)@ == old(text)@ + dependencies_yaml(entries@, timeouts@),
{
    if entries.len() == 0 {
        assert(old(text)@ + Seq::<char>::empty() =~= old(text)@);
        return;
    }
    let ghost start = text@;
    append_text(text, "dependencies:\n");
    let ghost head = text@;
    let mut index: usize = 0;
    while index < entries.len()
        invariant
            index <= entries@.len() == timeouts@.len(),
            text@ == head + entries_yaml(entries@.take(index as int), timeouts@),
        decreases entries@.len() - index,
    {
        assert(entries@.take(index + 1).drop_last() =~= entries@.take(index as int));
        assert(entries@.take(index + 1).last() == entries@[index as int]);
        append_dependency(text, entries[index].0.as_str(), &entries[index].1, timeouts[index].as_str());
        index += 1;
    }
    assert(entries@.take(entries@.len() as int) =~= entries@);
    assert(text@ =~= start + dependencies_yaml(entries@, timeouts@));
}

/// Whether every dependency only waits for its task to start.
pub open spec fn all_started(entries: Seq<(Seq<char>, Seq<char>)>) -> bool {
    forall|index: int| 0 <= index < entries.len() ==> #[trigger] entries[index].1 == "started"@
}

/// Lines `"name": condition` of a task's dependencies.
pub open spec fn condition_lines(entries: Seq<(Seq<char>, Seq<char>)>) -> Seq<char>
    decreases entries.len(),
{
    if entries.len() == 0 {
        Seq::empty()
    } else {
        condition_lines(entries.drop_last()) + "      "@ + json_quoted(entries.last().0) + ": "@
            + entries.last().1 + "\n"@
    }
}

/// The entries of a task's dependencies.
pub open spec fn task_dependency_entries(entries: Seq<(String, FormTaskDependency)>) -> Seq<
    (Seq<char>, Seq<char>),
> {
    entries.map_values(|entry: (String, FormTaskDependency)| (entry.0@, entry.1.condition@))
}

/// A task's dependencies in YAML: nothing when there are none, a list of names when all wait
/// only for a start, else each name with its condition.
pub open spec fn task_dependencies_yaml(entries: Seq<(Seq<char>, Seq<char>)>) -> Seq<char> {
    if entries.len() == 0 {
        Seq::empty()
    } else if all_started(entries) {
        "    depends_on: ["@ + joined(
            entries.map_values(|entry: (Seq<char>, Seq<char>)| json_quoted(entry.0)),
            ", "@,
        ) + "]\n"@
    } else {
        "    depends_on:\n"@ + condition_lines(entries)
    }
}

/// Appends a task's dependencies.
pub fn append_task_dependencies(text: &mut String, entries: &Vec<(String, FormTaskDependency)>)
    ensures
        final(text)@ == old(text)@ + task_dependencies_yaml(task_dependency_entries(entries@)),
{
    let ghost start = text@;
    let ghost all = task_dependency_entries(entries@);
    if entries.len() == 0 {
        assert(old(text)@ + Seq::<char>::empty() =~= old(text)@);
        return;
    }
    let started = "started".to_owned();
    let mut index: usize = 0;
    let mut every = true;
    while index < entries.len()
        invariant
            index <= entries@.len(),
            all == task_dependency_entries(entries@),
            started@ == "started"@,
            every == (forall|k: int| 0 <= k < index ==> #[trigger] all[k].1 == "started"@),
        decreases entries@.len() - index,
    {
        assert(all[index as int].1 == entries@[index as int].1.condition@);
        if !same_text(&entries[index].1.condition, &started) {
            every = false;
        }
        index += 1;
    }
    if every {
        let ghost names = all.map_values(|entry: (Seq<char>, Seq<char>)| json_quoted(entry.0));
        append_text(text, "    depends_on: [");
        let ghost head = text@;
        let mut index: usize = 0;
        while index < entries.len()
            invariant
                index <= entries@.len(),
                all == task_dependency_entries(entries@),
                names == all.map_values(|entry: (Seq<char>, Seq<char>)| json_quoted(entry.0)),
                text@ == head + joined(names.take(index as int), ", "@),
            decreases entries@.len() - index,
        {
            let ghost before = text@;
            if index > 0 {
                append_text(text, ", ");
            }
            append_text(text, quoted(entries[index].0.as_str()).as_str());
            index += 1;
            assert(names.take(index as int).drop_last() =~= names.take(index - 1));
            if index == 1 {
                assert(text@ =~= head + names.take(1)[0]);
            } else {
                assert(text@ =~= before + ", "@ + names.take(index as int).last());
            }
        }
        assert(names.take(entries@.len() as int) =~= names);
        append_text(text, "]\n");
        assert(text@ =~= start + task_dependencies_yaml(all));
    } else {
        append_text(text, "    depends_on:\n");
        let ghost head = text@;
        let mut index: usize = 0;
        assert(all.take(0) =~= Seq::<(Seq<char>, Seq<char>)>::empty());
        while index < entries.len()
            invariant
                index <= entries@.len(),
                all == task_dependency_entries(entries@),
                text@ == head + condition_lines(all.take(index as int)),
            decreases entries@.len() - index,
        {
            assert(all.take(index + 1).drop_last() =~= all.take(index as int));
            append_text(text, "      ");
            append_text(text, quoted(entries[index].0.as_str()).as_str());
            append_text(text, ": ");
            append_text(text, entries[index].1.condition.as_str());
            append_text(text, "\n");
            index += 1;
            assert(text@ =~= head + condition_lines(all.take(index as int)));
        }
        assert(all.take(entries@.len() as int) =~= all);
        assert(text@ =~= start + task_dependencies_yaml(all));
    }
}

/// The command and arguments a task declares itself: a command alone, a command list, or
/// arguments alone.
pub open spec fn command_yaml(task: crate::form_task::TaskModel) -> Seq<char> {
    if crate::form_task::declares(task, "command"@) {
        if task.args.len() == 0 {
            string_line(4, "command"@, task.command) + (if crate::form_task::declares(task, "args"@) {
                "    args: []\n"@
            } else {
                Seq::empty()
            })
        } else {
            "    command: "@ + json_string_array(seq![task.command] + task.args) + "\n"@
        }
    } else if crate::form_task::declares(task, "args"@) {
        if task.args.len() == 0 {
            "    args: []\n"@
        } else {
            list_part(4, "args"@, task.args)
        }
    } else {
        Seq::empty()
    }
}

/// A line written only where the task declares the setting.
pub open spec fn declared_line(task: crate::form_task::TaskModel, name: Seq<char>, line: Seq<char>) -> Seq<char> {
    if crate::form_task::declares(task, name) {
        line
    } else {
        Seq::empty()
    }
}

/// The start of a task's YAML entry: its name, template, command, working directory,
/// environment file and environment.
pub open spec fn task_head(id: Seq<char>, task: crate::form_task::TaskModel) -> Seq<char> {
    "  "@ + json_quoted(id) + ":\n"@ + optional_line(4, "extends"@, task.extends) + command_yaml(task)
        + declared_line(task, "cwd"@, optional_line(4, "cwd"@, task.cwd)) + optional_line(
        4,
        "env_file"@,
        task.env_file,
    ) + (if task.env.len() > 0 {
        "    env:\n"@ + map_lines(6, task.env)
    } else {
        Seq::empty()
    })
}

/// A line `uploads: ` with upload targets in compact JSON, nothing without any.
pub open spec fn uploads_line(indent: int, uploads: Option<Seq<char>>) -> Seq<char> {
    match uploads {
        Some(json) => spaces(indent) + "uploads: "@ + json + "\n"@,
        None => Seq::empty(),
    }
}

/// The rest of a task's YAML entry: exit codes, dependencies, upload targets and the restart
/// and stop settings it declares itself.
pub open spec fn task_settings(
    task: crate::form_task::TaskModel,
    durations: (Seq<char>, Seq<char>, Seq<char>),
) -> Seq<char> {
    declared_line(
        task,
        "success_exit_codes"@,
        list_lines(
            4,
            "success_exit_codes"@,
            task.success_exit_codes.map_values(|value: i32| crate::number::signed_text(value as int)),
        ),
    ) + task_dependencies_yaml(task.depends_on) + uploads_line(4, task.uploads) + declared_line(
        task,
        "restart"@,
        plain_line(true, 4, "restart"@, task.restart),
    ) + declared_line(task, "restart_delay_ms"@, string_line(4, "restart_delay"@, durations.0))
        + declared_line(
        task,
        "max_restarts"@,
        plain_line(true, 4, "max_restarts"@, digits_of(task.max_restarts as nat)),
    ) + declared_line(
        task,
        "restart_reset_after_ms"@,
        string_line(4, "restart_reset_after"@, durations.1),
    ) + declared_line(task, "shutdown_timeout_ms"@, string_line(4, "shutdown_timeout"@, durations.2))
}

/// The probe of an exec health check: its command, arguments and working directory.
pub open spec fn exec_probe_yaml(health: HealthModel) -> Seq<char> {
    match health.command {
        Some(command) => string_line(6, "command"@, command) + list_part(6, "args"@, health.args)
            + optional_line(6, "cwd"@, health.cwd),
        None => Seq::empty(),
    }
}

/// The probe of an HTTP health check: scheme, host, port when set, path, headers when there
/// are any, and the expected status code.
pub open spec fn http_probe_yaml(health: HealthModel) -> Seq<char> {
    match health.http_get {
        Some(http) => "      http_get:\n"@ + plain_line(true, 8, "scheme"@, http.scheme) + string_line(
            8,
            "host"@,
            http.host,
        ) + (match http.port {
            Some(port) => plain_line(true, 8, "port"@, digits_of(port as nat)),
            None => Seq::empty(),
        }) + string_line(8, "path"@, http.path) + (if http.headers.len() > 0 {
            "        headers:\n"@ + map_lines(10, http.headers)
        } else {
            Seq::empty()
        }) + plain_line(true, 8, "status_code"@, digits_of(http.status_code as nat)),
        None => Seq::empty(),
    }
}

/// A task's health check: its probe, then its wait, period and timeout (given in the
/// configuration's duration syntax) and its thresholds.
pub open spec fn health_yaml(health: HealthModel, durations: (Seq<char>, Seq<char>, Seq<char>)) -> Seq<char> {
    "    healthcheck:\n"@ + exec_probe_yaml(health) + http_probe_yaml(health) + string_line(
        6,
        "initial_delay"@,
        durations.0,
    ) + string_line(6, "period"@, durations.1) + string_line(6, "timeout"@, durations.2) + plain_line(
        true,
        6,
        "success_threshold"@,
        digits_of(health.success_threshold as nat),
    ) + plain_line(true, 6, "failure_threshold"@, digits_of(health.failure_threshold as nat))
}

/// The health check a task declares itself, nothing otherwise.
pub open spec fn declared_health(
    task: crate::form_task::TaskModel,
    durations: (Seq<char>, Seq<char>, Seq<char>),
) -> Seq<char> {
    if crate::form_task::declares(task, "healthcheck"@) {
        match task.healthcheck {
            Some(health) => health_yaml(health, durations),
            None => Seq::empty(),
        }
    } else {
        Seq::empty()
    }
}

/// The YAML entry of one task: template, command, the settings it declares itself,
/// environment, health check, dependencies and upload targets; `durations` are its restart
/// wait, count reset and stop timeout, and `health` its health check's wait, period and
/// timeout, in the configuration's duration syntax.
pub open spec fn task_yaml(
    id: Seq<char>,
    task: crate::form_task::TaskModel,
    durations: (Seq<char>, Seq<char>, Seq<char>),
    health: (Seq<char>, Seq<char>, Seq<char>),
) -> Seq<char> {
    task_head(id, task) + declared_health(task, health) + task_settings(task, durations)
}

/// Appends the command and arguments a task declares itself.
fn append_command(text: &mut String, task: &crate::form_task::FormTask)
    ensures
        final(text)@ == old(text)@ + command_yaml(task@),
{
    let ghost start = text@;
    if task.explicit("command") {
        if task.args.len() == 0 {
            optional_yaml(text, 4, "command", Some(task.command.as_str()));
            if task.explicit("args") {
                append_text(text, "    args: []\n");
            }
            assert(text@ =~= start + command_yaml(task@));
        } else {
            let mut argv: Vec<String> = Vec::new();
            argv.push(task.command.clone());
            let mut index: usize = 0;
            while index < task.args.len()
                invariant
                    index <= task.args@.len(),
                    argv.deep_view() == seq![task.command@] + task.args.deep_view().take(index as int),
                decreases task.args@.len() - index,
            {
                let ghost before = argv.deep_view();
                let item = task.args[index].clone();
                argv.push(item);
                assert(argv.deep_view() =~= before.push(item@));
                index += 1;
                assert(argv.deep_view() =~= seq![task.command@] + task.args.deep_view().take(index as int));
            }
            assert(task.args.deep_view().take(task.args@.len() as int) =~= task.args.deep_view());
            assert(argv@.map_values(|value: String| value@) =~= argv.deep_view());
            append_text(text, "    command: ");
            append_text(text, crate::json::args_text(argv.as_slice()).as_str());
            append_text(text, "\n");
            assert(text@ =~= start + command_yaml(task@));
        }
    } else if task.explicit("args") {
        if task.args.len() == 0 {
            append_text(text, "    args: []\n");
            assert(text@ =~= start + command_yaml(task@));
        } else {
            append_list(text, 4, "args", &task.args);
        }
    } else {
        assert(text@ =~= start + command_yaml(task@));
    }
}

/// Appends a line only where the task declares the setting.
fn append_declared_string(
    text: &mut String,
    task: &crate::form_task::FormTask,
    name: &str,
    key: &str,
    value: &str,
)
    ensures
        final(text)@ == old(text)@ + declared_line(task@, name@, string_line(4, key@, value@)),
{
    if task.explicit(name) {
        optional_yaml(text, 4, key, Some(value));
    } else {
        assert(old(text)@ + Seq::<char>::empty() =~= old(text)@);
    }
}

/// Appends the start of a task's YAML entry.
#[verifier::rlimit(40)]
fn append_task_head(text: &mut String, id: &str, task: &crate::form_task::FormTask)
    ensures
        final(text)@ == old(text)@ + task_head(id@, task@),
{
    let ghost start = text@;
    append_text(text, "  ");
    append_text(text, quoted(id).as_str());
    append_text(text, ":\n");
    append_optional(text, 4, "extends", &task.extends);
    let ghost after_extends = text@;
    append_command(text, task);
    let ghost after_command = text@;
    if task.explicit("cwd") {
        append_optional(text, 4, "cwd", &task.cwd);
    }
    let ghost after_cwd = text@;
    assert(after_cwd =~= after_command + declared_line(task@, "cwd"@, optional_line(4, "cwd"@, task@.cwd)));
    append_optional(text, 4, "env_file", &task.env_file);
    let ghost after_env_file = text@;
    if task.env.len() > 0 {
        append_text(text, "    env:\n");
        append_map(text, 6, &task.env);
    }
    assert(text@ =~= after_env_file + (if task@.env.len() > 0 {
        "    env:\n"@ + map_lines(6, task@.env)
    } else {
        Seq::empty()
    }));
    assert(text@ =~= start + task_head(id@, task@));
}

/// Appends the exit codes where the task declares them.
fn append_declared_codes(text: &mut String, task: &crate::form_task::FormTask)
    ensures
        final(text)@ == old(text)@ + declared_line(
            task@,
            "success_exit_codes"@,
            list_lines(
                4,
                "success_exit_codes"@,
                task@.success_exit_codes.map_values(|value: i32| crate::number::signed_text(value as int)),
            ),
        ),
{
    if task.explicit("success_exit_codes") {
        yaml_i32_array(text, 4, "success_exit_codes", task.success_exit_codes.as_slice());
    } else {
        assert(old(text)@ + Seq::<char>::empty() =~= old(text)@);
    }
}

/// Appends a line written as it is, where the task declares the setting.
fn append_declared_plain(
    text: &mut String,
    task: &crate::form_task::FormTask,
    name: &str,
    value: &str,
)
    ensures
        final(text)@ == old(text)@ + declared_line(task@, name@, plain_line(true, 4, name@, value@)),
{
    let shown = task.explicit(name);
    append_plain(text, shown, 4, name, value);
    if !shown {
        assert(old(text)@ + Seq::<char>::empty() =~= old(text)@);
    }
}

/// Appends upload targets kept as compact JSON, nothing without any.
pub fn append_uploads(text: &mut String, indent: usize, uploads: &Option<String>)
    ensures
        final(text)@ == old(text)@ + uploads_line(indent as int, uploads.deep_view()),
{
    match uploads {
        Some(json) => {
            let ghost start = text@;
            append_spaces(text, indent);
            append_text(text, "uploads: ");
            append_text(text, json.as_str());
            append_text(text, "\n");
            assert(text@ =~= start + uploads_line(indent as int, uploads.deep_view()));
        },
        None => {
            assert(old(text)@ + Seq::<char>::empty() =~= old(text)@);
        },
    }
}

/// Appends the rest of a task's YAML entry.
#[verifier::rlimit(40)]
fn append_task_settings(
    text: &mut String,
    task: &crate::form_task::FormTask,
    durations: &crate::form_task::TaskDurationTexts,
)
    ensures
        final(text)@ == old(text)@ + task_settings(
            task@,
            (durations.restart_delay@, durations.restart_reset_after@, durations.shutdown_timeout@),
        ),
{
    let ghost s0 = text@;
    append_declared_codes(text, task);
    let ghost s1 = text@;
    append_task_dependencies(text, &task.depends_on);
    append_uploads(text, 4, &task.uploads);
    let ghost s2 = text@;
    append_declared_plain(text, task, "restart", task.restart.as_str());
    let ghost s3 = text@;
    append_declared_string(text, task, "restart_delay_ms", "restart_delay", durations.restart_delay.as_str());
    let ghost s4 = text@;
    append_declared_plain(text, task, "max_restarts", natural_text(task.max_restarts as u64).as_str());
    let ghost s5 = text@;
    append_declared_string(
        text,
        task,
        "restart_reset_after_ms",
        "restart_reset_after",
        durations.restart_reset_after.as_str(),
    );
    let ghost s6 = text@;
    append_declared_string(
        text,
        task,
        "shutdown_timeout_ms",
        "shutdown_timeout",
        durations.shutdown_timeout.as_str(),
    );
    assert(text@ =~= s0 + task_settings(
        task@,
        (durations.restart_delay@, durations.restart_reset_after@, durations.shutdown_timeout@),
    ));
}

/// Appends the probe of an exec health check.
fn append_exec_probe(text: &mut String, health: &FormHealthCheck)
    ensures
        final(text)@ == old(text)@ + exec_probe_yaml(health@),
{
    match &health.command {
        Some(command) => {
            let ghost start = text@;
            optional_yaml(text, 6, "command", Some(command.as_str()));
            append_list(text, 6, "args", &health.args);
            append_optional(text, 6, "cwd", &health.cwd);
            assert(text@ =~= start + exec_probe_yaml(health@));
        },
        None => {
            assert(old(text)@ + Seq::<char>::empty() =~= old(text)@);
        },
    }
}

/// Appends the probe of an HTTP health check.
#[verifier::rlimit(40)]
fn append_http_probe(text: &mut String, health: &FormHealthCheck)
    ensures
        final(text)@ == old(text)@ + http_probe_yaml(health@),
{
    match &health.http_get {
        Some(http) => {
            let ghost start = text@;
            append_text(text, "      http_get:\n");
            append_plain(text, true, 8, "scheme", http.scheme.as_str());
            optional_yaml(text, 8, "host", Some(http.host.as_str()));
            let ghost before_port = text@;
            match http.port {
                Some(port) => append_plain(text, true, 8, "port", natural_text(port as u64).as_str()),
                None => {},
            }
            let ghost after_port = text@;
            assert(after_port =~= before_port + match http@.port {
                Some(port) => plain_line(true, 8, "port"@, digits_of(port as nat)),
                None => Seq::empty(),
            });
            optional_yaml(text, 8, "path", Some(http.path.as_str()));
            let ghost before_headers = text@;
            if http.headers.len() > 0 {
                append_text(text, "        headers:\n");
                append_map(text, 10, &http.headers);
            }
            let ghost after_headers = text@;
            assert(after_headers =~= before_headers + (if http@.headers.len() > 0 {
                "        headers:\n"@ + map_lines(10, http@.headers)
            } else {
                Seq::empty()
            }));
            append_plain(text, true, 8, "status_code", natural_text(http.status_code as u64).as_str());
            assert(text@ =~= start + http_probe_yaml(health@));
        },
        None => {
            assert(old(text)@ + Seq::<char>::empty() =~= old(text)@);
        },
    }
}

/// Appends a task's health check.
#[verifier::rlimit(40)]
pub fn append_health_yaml(text: &mut String, health: &FormHealthCheck, durations: &HealthDurationTexts)
    ensures
        final(text)@ == old(text)@ + health_yaml(
            health@,
            (durations.initial_delay@, durations.period@, durations.timeout@),
        ),
{
    let ghost start = text@;
    append_text(text, "    healthcheck:\n");
    append_exec_probe(text, health);
    append_http_probe(text, health);
    let ghost probes = text@;
    optional_yaml(text, 6, "initial_delay", Some(durations.initial_delay.as_str()));
    optional_yaml(text, 6, "period", Some(durations.period.as_str()));
    optional_yaml(text, 6, "timeout", Some(durations.timeout.as_str()));
    append_plain(text, true, 6, "success_threshold", natural_text(health.success_threshold as u64).as_str());
    append_plain(text, true, 6, "failure_threshold", natural_text(health.failure_threshold as u64).as_str());
    assert(text@ =~= start + health_yaml(health@, (durations.initial_delay@, durations.period@, durations.timeout@)));
}

/// Appends the health check a task declares itself.
fn append_declared_health(text: &mut String, task: &crate::form_task::FormTask, durations: &HealthDurationTexts)
    ensures
        final(text)@ == old(text)@ + declared_health(
            task@,
            (durations.initial_delay@, durations.period@, durations.timeout@),
        ),
{
    if task.explicit("healthcheck") {
        match &task.healthcheck {
            Some(health) => {
                append_health_yaml(text, health, durations);
                return;
            },
            None => {},
        }
    }
    assert(old(text)@ + Seq::<char>::empty() =~= old(text)@);
}

/// Appends the YAML entry of one task.
#[verifier::rlimit(60)]
pub fn append_task_yaml(
    text: &mut String,
    id: &str,
    task: &crate::form_task::FormTask,
    durations: &crate::form_task::TaskDurationTexts,
    health: &HealthDurationTexts,
)
    ensures
        final(text)@ == old(text)@ + task_yaml(
            id@,
            task@,
            (durations.restart_delay@, durations.restart_reset_after@, durations.shutdown_timeout@),
            (health.initial_delay@, health.period@, health.timeout@),
        ),
{
    let ghost start = text@;
    append_task_head(text, id, task);
    append_declared_health(text, task, health);
    append_task_settings(text, task, durations);
    assert(text@ =~= start + task_yaml(
        id@,
        task@,
        (durations.restart_delay@, durations.restart_reset_after@, durations.shutdown_timeout@),
        (health.initial_delay@, health.period@, health.timeout@),
    ));
}

/// A section of `"name": "value"` lines under `key`, nothing for an empty map.
pub open spec fn map_section(key: Seq<char>, entries: Seq<(Seq<char>, Seq<char>)>) -> Seq<char> {
    if entries.len() == 0 {
        Seq::empty()
    } else {
        key + ":\n"@ + map_lines(2, entries)
    }
}

/// The opening lines of a configuration: its format version, the project name, the project
/// variables when there are any and the active profile when one is chosen.
pub open spec fn config_head(
    version: u32,
    project: Seq<char>,
    vars: Seq<(Seq<char>, Seq<char>)>,
    profile: Option<Seq<char>>,
) -> Seq<char> {
    "version: "@ + signed_text(version as int) + "\nproject: "@ + json_quoted(project) + "\n"@
        + map_section("vars"@, vars) + optional_line(0, "profile"@, profile)
}

/// Appends the opening lines of a configuration.
pub fn append_config_head(
    text: &mut String,
    version: u32,
    project: &str,
    vars: &Vec<(String, String)>,
    profile: &Option<String>,
)
    ensures
        final(text)@ == old(text)@ + config_head(version, project@, pair_entries(vars@), profile.deep_view()),
{
    let ghost start = text@;
    append_text(text, "version: ");
    append_text(text, decimal_text(version as i64).as_str());
    append_text(text, "\nproject: ");
    append_text(text, quoted(project).as_str());
    append_text(text, "\n");
    append_map_section(text, "vars", vars);
    append_optional(text, 0, "profile", profile);
    assert(text@ =~= start + config_head(version, project@, pair_entries(vars@), profile.deep_view()));
}

/// Appends a map section under `key`, nothing for an empty map.
pub fn append_map_section(text: &mut String, key: &str, entries: &Vec<(String, String)>)
    ensures
        final(text)@ == old(text)@ + map_section(key@, pair_entries(entries@)),
{
    if entries.len() == 0 {
        assert(old(text)@ + Seq::<char>::empty() =~= old(text)@);
        return;
    }
    let ghost start = text@;
    append_text(text, key);
    append_text(text, ":\n");
    append_map(text, 2, entries);
    assert(text@ =~= start + map_section(key@, pair_entries(entries@)));
}

/// The task entries of a configuration, each with its duration texts.
pub open spec fn tasks_entries_yaml(
    tasks: Seq<(String, crate::form_task::FormTask)>,
    durations: Seq<crate::form_task::TaskDurationTexts>,
    health: Seq<HealthDurationTexts>,
) -> Seq<char>
    decreases tasks.len(),
{
    if tasks.len() == 0 {
        Seq::empty()
    } else {
        let last = durations[tasks.len() - 1];
        let checks = health[tasks.len() - 1];
        tasks_entries_yaml(tasks.drop_last(), durations, health) + task_yaml(
            tasks.last().0@,
            tasks.last().1@,
            (last.restart_delay@, last.restart_reset_after@, last.shutdown_timeout@),
            (checks.initial_delay@, checks.period@, checks.timeout@),
        )
    }
}

/// Appends the `tasks:` section; `durations` and `health` hold each task's restart and stop
/// durations and its health check's wait, period and timeout in the configuration's duration
/// syntax, in the same order.
#[verifier::rlimit(80)]
pub fn append_tasks(
    text: &mut String,
    tasks: &Vec<(String, crate::form_task::FormTask)>,
    durations: &Vec<crate::form_task::TaskDurationTexts>,
    health: &Vec<HealthDurationTexts>,
)
    requires
        tasks@.len() == durations@.len(),
        tasks@.len() == health@.len(),
    ensures
        final(text)@ == old(text)@ + "tasks:\n"@ + tasks_entries_yaml(tasks@, durations@, health@),
{
    let ghost start = text@;
    append_text(text, "tasks:\n");
    let ghost head = text@;
    let mut index: usize = 0;
    while index < tasks.len()
        invariant
            index <= tasks@.len() == durations@.len() == health@.len(),
            text@ == head + tasks_entries_yaml(tasks@.take(index as int), durations@, health@),
        decreases tasks@.len() - index,
    {
        assert(tasks@.take(index + 1).drop_last() =~= tasks@.take(index as int));
        assert(tasks@.take(index + 1).last() == tasks@[index as int]);
        append_task_yaml(text, tasks[index].0.as_str(), &tasks[index].1, &durations[index], &health[index]);
        index += 1;
    }
    assert(tasks@.take(tasks@.len() as int) =~= tasks@);
    assert(text@ =~= start + "tasks:\n"@ + tasks_entries_yaml(tasks@, durations@, health@));
}

} // verus!
