//! A task's health check as the structured configuration form edits it: the health-check
//! dialog's fields and how they are read back.
//!
//! Durations are held in milliseconds. The dialog takes them already written in the
//! configuration's duration syntax, and reading it back takes what that syntax read from each
//! duration field.

use vstd::prelude::*;

use crate::form_dialog::{text_field_model, text_or_empty};
use crate::form_field::{choice_field, field, map_field, DialogField, DialogFieldKind, FieldModel};
use crate::form_task::{with_origin, FormTask, TaskModel, ValueOrigin};
use crate::form_value::{
    argument_list, empty_message, optional, parse_args, parse_map, parse_optional_u16, parse_u16, parse_u32,
    port_message, required_value, table_text_entries, unsigned_message,
};
use crate::json::{args_text, json_string_array, json_string_object, keys_increasing, map_text};
use crate::number::{digits_of, natural_text, parse_unsigned};
use crate::text::{append_text, same_text, trimmed};

verus! {

/// An HTTP GET probe.
#[derive(Clone, Debug)]
pub struct FormHttpHealthCheck {
    /// `http` or `https`.
    pub scheme: String,
    /// Host name or address.
    pub host: String,
    /// Port; the scheme's default when there is none.
    pub port: Option<u16>,
    /// Request path.
    pub path: String,
    /// Request headers, in key order.
    pub headers: Vec<(String, String)>,
    /// Status code that counts as healthy.
    pub status_code: u16,
}

/// A health check: a command to run or an HTTP probe, with its timing and thresholds.
#[derive(Clone, Debug)]
pub struct FormHealthCheck {
    /// Command of an exec probe.
    pub command: Option<String>,
    /// Arguments of an exec probe.
    pub args: Vec<String>,
    /// Working directory of an exec probe.
    pub cwd: Option<String>,
    /// The HTTP probe, when the check is one.
    pub http_get: Option<FormHttpHealthCheck>,
    /// Wait before the first check, in milliseconds.
    pub initial_delay_ms: u64,
    /// Time between checks, in milliseconds.
    pub period_ms: u64,
    /// Time limit of one check, in milliseconds.
    pub timeout_ms: u64,
    /// Consecutive successes that make the task healthy.
    pub success_threshold: u32,
    /// Consecutive failures that make the task unhealthy.
    pub failure_threshold: u32,
}

/// An HTTP probe as a mathematical value.
pub ghost struct HttpModel {
    pub scheme: Seq<char>,
    pub host: Seq<char>,
    pub port: Option<u16>,
    pub path: Seq<char>,
    pub headers: Seq<(Seq<char>, Seq<char>)>,
    pub status_code: u16,
}

/// A health check as a mathematical value.
pub ghost struct HealthModel {
    pub command: Option<Seq<char>>,
    pub args: Seq<Seq<char>>,
    pub cwd: Option<Seq<char>>,
    pub http_get: Option<HttpModel>,
    pub initial_delay_ms: u64,
    pub period_ms: u64,
    pub timeout_ms: u64,
    pub success_threshold: u32,
    pub failure_threshold: u32,
}

impl View for FormHttpHealthCheck {
    type V = HttpModel;

    open spec fn view(&self) -> HttpModel {
        HttpModel {
            scheme: self.scheme@,
            host: self.host@,
            port: self.port,
            path: self.path@,
            headers: self.headers@.map_values(|entry: (String, String)| (entry.0@, entry.1@)),
            status_code: self.status_code,
        }
    }
}

impl View for FormHealthCheck {
    type V = HealthModel;

    open spec fn view(&self) -> HealthModel {
        HealthModel {
            command: self.command.deep_view(),
            args: self.args.deep_view(),
            cwd: self.cwd.deep_view(),
            http_get: match self.http_get {
                Some(http) => Some(http@),
                None => None,
            },
            initial_delay_ms: self.initial_delay_ms,
            period_ms: self.period_ms,
            timeout_ms: self.timeout_ms,
            success_threshold: self.success_threshold,
            failure_threshold: self.failure_threshold,
        }
    }
}

/// The view of an optional health check.
pub open spec fn health_view(health: Option<FormHealthCheck>) -> Option<HealthModel> {
    match health {
        Some(health) => Some(health@),
        None => None,
    }
}

/// The kind of a task's health check: `none`, `exec` or `http`.
pub open spec fn health_kind(health: Option<HealthModel>) -> Seq<char> {
    match health {
        None => "none"@,
        Some(health) => if health.http_get is Some {
            "http"@
        } else {
            "exec"@
        },
    }
}

/// The label of a task's health check in the details: `未配置`, `HTTP GET` or `Exec`.
pub open spec fn health_label_of(health: Option<HealthModel>) -> Seq<char> {
    match health {
        None => "未配置"@,
        Some(health) => if health.http_get is Some {
            "HTTP GET"@
        } else {
            "Exec"@
        },
    }
}

/// The HTTP probe of a task's health check, when it has one.
pub open spec fn http_of(health: Option<HealthModel>) -> Option<HttpModel> {
    match health {
        Some(health) => health.http_get,
        None => None,
    }
}

/// The request headers the health-check dialog shows: none without an HTTP probe.
pub open spec fn shown_headers(health: Option<HealthModel>) -> Seq<(Seq<char>, Seq<char>)> {
    match http_of(health) {
        Some(http) => http.headers,
        None => Seq::empty(),
    }
}

/// Duration settings of a health check in the configuration's duration syntax, for the dialog:
/// the task's own, or the built-in wait of none, period of ten seconds and timeout of one
/// second when the task has no health check.
pub struct HealthDurationTexts {
    /// Wait before the first check.
    pub initial_delay: String,
    /// Time between checks.
    pub period: String,
    /// Time limit of one check.
    pub timeout: String,
}

/// Choices of the health-check kind field.
pub open spec fn health_kinds() -> Seq<Seq<char>> {
    seq!["none"@, "exec"@, "http"@]
}

/// Choices of the HTTP scheme field.
pub open spec fn scheme_choices() -> Seq<Seq<char>> {
    seq!["http"@, "https"@]
}

/// A choice field's model, the cursor at the end.
pub open spec fn choice_model(label: Seq<char>, value: Seq<char>, choices: Seq<Seq<char>>) -> FieldModel {
    (label, value, choices, value.len() as int, DialogFieldKind::Choice)
}

/// The fields of the health-check dialog of a task: its check, or the values a new check
/// starts from (an HTTP probe of `http://127.0.0.1/` expecting 200, one success and three
/// failures) where it has none; `durations` are its wait, period and timeout texts.
pub open spec fn health_dialog_fields(
    health: Option<HealthModel>,
    durations: (Seq<char>, Seq<char>, Seq<char>),
) -> Seq<FieldModel> {
    let kind = health_kind(health);
    let http = http_of(health);
    seq![
        choice_model("类型"@, kind, health_kinds()),
        text_field_model("Exec 命令"@, match health {
            Some(health) => text_or_empty(health.command),
            None => Seq::empty(),
        }),
        text_field_model("Exec 参数（JSON 数组或空格分隔）"@, json_string_array(match health {
            Some(health) => health.args,
            None => Seq::empty(),
        })),
        text_field_model("Exec 工作目录（可空）"@, match health {
            Some(health) => text_or_empty(health.cwd),
            None => Seq::empty(),
        }),
        choice_model("HTTP 协议"@, match http {
            Some(http) => http.scheme,
            None => "http"@,
        }, scheme_choices()),
        text_field_model("HTTP 主机"@, match http {
            Some(http) => http.host,
            None => "127.0.0.1"@,
        }),
        text_field_model("HTTP 端口（可空）"@, match http {
            Some(http) => match http.port {
                Some(port) => digits_of(port as nat),
                None => Seq::empty(),
            },
            None => Seq::empty(),
        }),
        text_field_model("HTTP 路径"@, match http {
            Some(http) => http.path,
            None => "/"@,
        }),
        (
            "HTTP 请求头（按 F4 编辑键值表）"@,
            json_string_object(shown_headers(health)),
            Seq::empty(),
            json_string_object(shown_headers(health)).len() as int,
            DialogFieldKind::Table,
        ),
        text_field_model("HTTP 预期状态码"@, digits_of(match http {
            Some(http) => http.status_code as nat,
            None => 200,
        })),
        text_field_model("首次检查等待（如 0ms/2s）"@, durations.0),
        text_field_model("检查周期（如 10s）"@, durations.1),
        text_field_model("单次检查超时（如 1s）"@, durations.2),
        text_field_model("连续成功阈值"@, digits_of(match health {
            Some(health) => health.success_threshold as nat,
            None => 1,
        })),
        text_field_model("连续失败阈值"@, digits_of(match health {
            Some(health) => health.failure_threshold as nat,
            None => 3,
        })),
    ]
}

/// The text of an optional value, empty when there is none.
fn text_of(value: &Option<String>) -> (result: String)
    ensures
        result@ == text_or_empty(value.deep_view()),
{
    match value {
        Some(text) => text.clone(),
        None => String::new(),
    }
}

impl FormTask {
    /// The label of the task's health check in the details.
    pub fn health_label(&self) -> (result: &'static str)
        ensures
            result@ == health_label_of(self@.healthcheck),
    {
        match &self.healthcheck {
            None => "未配置",
            Some(health) => if health.http_get.is_some() {
                "HTTP GET"
            } else {
                "Exec"
            },
        }
    }
}

/// The fields of the dialog editing a task's health check; `durations` holds its wait, period
/// and timeout in the configuration's duration syntax.
#[verifier::rlimit(60)]
pub fn health_fields(task: &FormTask, durations: &HealthDurationTexts) -> (result: Vec<DialogField>)
    requires
        keys_increasing(shown_headers(task@.healthcheck)),
    ensures
        result.deep_view() == health_dialog_fields(
            task@.healthcheck,
            (durations.initial_delay@, durations.period@, durations.timeout@),
        ),
{
    let empty: [&str; 0] = [];
    assert(empty@.map_values(|choice: &str| choice@) =~= Seq::<Seq<char>>::empty());
    let kinds: [&str; 3] = ["none", "exec", "http"];
    assert(kinds@.map_values(|choice: &str| choice@) =~= health_kinds());
    let schemes: [&str; 2] = ["http", "https"];
    assert(schemes@.map_values(|choice: &str| choice@) =~= scheme_choices());
    let ghost health = task@.healthcheck;
    let kind = match &task.healthcheck {
        None => "none",
        Some(health) => if health.http_get.is_some() {
            "http"
        } else {
            "exec"
        },
    };
    let (command, cwd, arguments, success, failure) = match &task.healthcheck {
        Some(health) => {
            assert(health.args@.map_values(|value: String| value@) =~= health.args.deep_view());
            (
                text_of(&health.command),
                text_of(&health.cwd),
                args_text(health.args.as_slice()),
                natural_text(health.success_threshold as u64),
                natural_text(health.failure_threshold as u64),
            )
        },
        None => {
            let no_args: Vec<String> = Vec::new();
            assert(no_args@.map_values(|value: String| value@) =~= Seq::<Seq<char>>::empty());
            (String::new(), String::new(), args_text(no_args.as_slice()), natural_text(1), natural_text(3))
        },
    };
    let (scheme, host, port, path, headers, status) = match &task.healthcheck {
        Some(FormHealthCheck { http_get: Some(http), .. }) => {
            assert(http@.headers == shown_headers(health));
            (
                http.scheme.clone(),
                http.host.clone(),
                match http.port {
                    Some(port) => natural_text(port as u64),
                    None => String::new(),
                },
                http.path.clone(),
                map_text(http.headers.as_slice()),
                natural_text(http.status_code as u64),
            )
        },
        _ => {
            let no_headers: Vec<(String, String)> = Vec::new();
            assert(no_headers@.map_values(|entry: (String, String)| (entry.0@, entry.1@))
                =~= shown_headers(health));
            (
                "http".to_owned(),
                "127.0.0.1".to_owned(),
                String::new(),
                "/".to_owned(),
                map_text(no_headers.as_slice()),
                natural_text(200),
            )
        },
    };
    let mut fields: Vec<DialogField> = Vec::new();
    fields.push(field("类型", kind, &kinds));
    fields.push(field("Exec 命令", command.as_str(), &empty));
    fields.push(field("Exec 参数（JSON 数组或空格分隔）", arguments.as_str(), &empty));
    fields.push(field("Exec 工作目录（可空）", cwd.as_str(), &empty));
    fields.push(field("HTTP 协议", scheme.as_str(), &schemes));
    fields.push(field("HTTP 主机", host.as_str(), &empty));
    fields.push(field("HTTP 端口（可空）", port.as_str(), &empty));
    fields.push(field("HTTP 路径", path.as_str(), &empty));
    fields.push(map_field("HTTP 请求头（按 F4 编辑键值表）", headers));
    fields.push(field("HTTP 预期状态码", status.as_str(), &empty));
    fields.push(field("首次检查等待（如 0ms/2s）", durations.initial_delay.as_str(), &empty));
    fields.push(field("检查周期（如 10s）", durations.period.as_str(), &empty));
    fields.push(field("单次检查超时（如 1s）", durations.timeout.as_str(), &empty));
    fields.push(field("连续成功阈值", success.as_str(), &empty));
    fields.push(field("连续失败阈值", failure.as_str(), &empty));
    let ghost expected = health_dialog_fields(
        health,
        (durations.initial_delay@, durations.period@, durations.timeout@),
    );
    proof {
        reveal_strlit("none");
        reveal_strlit("exec");
        reveal_strlit("http");
    }
    assert(fields.deep_view()[0] == expected[0]);
    assert(fields.deep_view()[4] == expected[4]);
    assert(fields.deep_view()[8] == expected[8]);
    assert(fields.deep_view() =~= expected);
    fields
}

/// What the configuration's duration syntax read from the health-check dialog's wait, period
/// and timeout fields.
#[derive(Debug)]
pub struct HealthReadings {
    /// Reading of the first-check wait field.
    pub initial_delay: Result<u64, String>,
    /// Reading of the period field.
    pub period: Result<u64, String>,
    /// Reading of the timeout field.
    pub timeout: Result<u64, String>,
}

/// Message for an unknown health-check kind.
pub open spec fn health_kind_message() -> Seq<char> {
    "健康检查类型只能是 none、exec 或 http"@
}

/// A required field: its text without surrounding white space, or the message for a blank one.
pub open spec fn required_read(value: Seq<char>, label: Seq<char>) -> Result<Seq<char>, Seq<char>> {
    if trimmed(value).len() == 0 {
        Err(empty_message(label))
    } else {
        Ok(trimmed(value))
    }
}

/// A count field: a non-negative 32-bit integer.
pub open spec fn count_read(value: Seq<char>, label: Seq<char>) -> Result<u32, Seq<char>> {
    match parse_unsigned(trimmed(value), u32::MAX as int) {
        Some(number) => Ok(number as u32),
        None => Err(unsigned_message(label)),
    }
}

/// A port-sized field: a 16-bit integer.
pub open spec fn port_read(value: Seq<char>, label: Seq<char>) -> Result<u16, Seq<char>> {
    match parse_unsigned(trimmed(value), u16::MAX as int) {
        Some(number) => Ok(number as u16),
        None => Err(port_message(label)),
    }
}

/// An optional port field: nothing when blank.
pub open spec fn optional_port_read(value: Seq<char>, label: Seq<char>) -> Result<Option<u16>, Seq<char>> {
    if trimmed(value).len() == 0 {
        Ok(None)
    } else {
        match port_read(value, label) {
            Ok(port) => Ok(Some(port)),
            Err(message) => Err(message),
        }
    }
}

/// A duration field: what the syntax read, or the message for what it refused.
pub open spec fn duration_read(reading: Result<u64, Seq<char>>, label: Seq<char>) -> Result<u64, Seq<char>> {
    match reading {
        Ok(value) => Ok(value),
        Err(error) => Err(crate::form_task::duration_message(label, error)),
    }
}

/// The timing of a health check: wait, period and timeout, then the success and failure
/// thresholds; the first that cannot be read makes it an error.
pub open spec fn timing_read(
    fields: Seq<FieldModel>,
    readings: (Result<u64, Seq<char>>, Result<u64, Seq<char>>, Result<u64, Seq<char>>),
) -> Result<(u64, u64, u64, u32, u32), Seq<char>> {
    match duration_read(readings.0, "首次检查等待"@) {
        Err(message) => Err(message),
        Ok(delay) => match duration_read(readings.1, "检查周期"@) {
            Err(message) => Err(message),
            Ok(period) => match duration_read(readings.2, "单次检查超时"@) {
                Err(message) => Err(message),
                Ok(timeout) => match count_read(fields[13].1, "连续成功阈值"@) {
                    Err(message) => Err(message),
                    Ok(success) => match count_read(fields[14].1, "连续失败阈值"@) {
                        Err(message) => Err(message),
                        Ok(failure) => Ok((delay, period, timeout, success, failure)),
                    },
                },
            },
        },
    }
}

/// The command, arguments and working directory of an exec probe.
pub open spec fn exec_read(fields: Seq<FieldModel>) -> Result<
    (Seq<char>, Seq<Seq<char>>, Option<Seq<char>>),
    Seq<char>,
> {
    match required_read(fields[1].1, "Exec 命令"@) {
        Err(message) => Err(message),
        Ok(command) => match argument_list(fields[2].1, "Exec 参数"@) {
            Err(message) => Err(message),
            Ok(args) => Ok((command, args, crate::form_dialog::optional_text(fields[3].1))),
        },
    }
}

/// An HTTP probe: the scheme as chosen, then host, port, path, headers and status code.
pub open spec fn http_read(fields: Seq<FieldModel>) -> Result<HttpModel, Seq<char>> {
    match required_read(fields[5].1, "HTTP 主机"@) {
        Err(message) => Err(message),
        Ok(host) => match optional_port_read(fields[6].1, "HTTP 端口"@) {
            Err(message) => Err(message),
            Ok(port) => match required_read(fields[7].1, "HTTP 路径"@) {
                Err(message) => Err(message),
                Ok(path) => match table_text_entries(fields[8].1, "HTTP 请求头"@) {
                    Err(message) => Err(message),
                    Ok(headers) => match port_read(fields[9].1, "HTTP 预期状态码"@) {
                        Err(message) => Err(message),
                        Ok(status_code) => Ok(
                            HttpModel { scheme: fields[4].1, host, port, path, headers, status_code },
                        ),
                    },
                },
            },
        },
    }
}

/// The health check the dialog describes: none, an exec probe or an HTTP probe with its
/// timing; an unknown kind or the first field that cannot be read makes it an error.
pub open spec fn health_read(
    fields: Seq<FieldModel>,
    readings: (Result<u64, Seq<char>>, Result<u64, Seq<char>>, Result<u64, Seq<char>>),
) -> Result<Option<HealthModel>, Seq<char>> {
    let kind = fields[0].1;
    if kind == "none"@ {
        Ok(None)
    } else if kind == "exec"@ {
        match exec_read(fields) {
            Err(message) => Err(message),
            Ok((command, args, cwd)) => match timing_read(fields, readings) {
                Err(message) => Err(message),
                Ok((delay, period, timeout, success, failure)) => Ok(
                    Some(
                        HealthModel {
                            command: Some(command),
                            args,
                            cwd,
                            http_get: None,
                            initial_delay_ms: delay,
                            period_ms: period,
                            timeout_ms: timeout,
                            success_threshold: success,
                            failure_threshold: failure,
                        },
                    ),
                ),
            },
        }
    } else if kind == "http"@ {
        match http_read(fields) {
            Err(message) => Err(message),
            Ok(http) => match timing_read(fields, readings) {
                Err(message) => Err(message),
                Ok((delay, period, timeout, success, failure)) => Ok(
                    Some(
                        HealthModel {
                            command: None,
                            args: Seq::empty(),
                            cwd: None,
                            http_get: Some(http),
                            initial_delay_ms: delay,
                            period_ms: period,
                            timeout_ms: timeout,
                            success_threshold: success,
                            failure_threshold: failure,
                        },
                    ),
                ),
            },
        }
    } else {
        Err(health_kind_message())
    }
}

/// The task with a new health check, recorded as its own or, without one, as built in.
pub open spec fn with_health(task: TaskModel, health: Option<HealthModel>) -> TaskModel {
    TaskModel {
        healthcheck: health,
        origins: with_origin(
            task.origins,
            "healthcheck"@,
            if health is Some {
                ValueOrigin::Task
            } else {
                ValueOrigin::BuiltIn
            },
        ),
        ..task
    }
}

/// The models of dialog fields.
pub open spec fn field_models(fields: Seq<DialogField>) -> Seq<FieldModel> {
    fields.map_values(|field: DialogField| field.deep_view())
}

/// Reads a duration field.
fn read_duration(reading: &Result<u64, String>, label: &str) -> (result: Result<u64, String>)
    ensures
        match duration_read(crate::form_task::reading_model(*reading), label@) {
            Ok(value) => result == Ok::<u64, String>(value),
            Err(expected) => result matches Err(message) && message@ == expected,
        },
{
    match reading {
        Ok(value) => Ok(*value),
        Err(error) => {
            let mut message = label.to_owned();
            append_text(&mut message, "无效：");
            append_text(&mut message, error.as_str());
            Err(message)
        },
    }
}

/// Reads the timing of a health check.
fn read_timing(fields: &[DialogField], readings: &HealthReadings) -> (result: Result<
    (u64, u64, u64, u32, u32),
    String,
>)
    requires
        fields@.len() >= 15,
    ensures
        match timing_read(
            field_models(fields@),
            (
                crate::form_task::reading_model(readings.initial_delay),
                crate::form_task::reading_model(readings.period),
                crate::form_task::reading_model(readings.timeout),
            ),
        ) {
            Ok(timing) => result == Ok::<(u64, u64, u64, u32, u32), String>(timing),
            Err(expected) => result matches Err(message) && message@ == expected,
        },
{
    let ghost models = field_models(fields@);
    assert(models[13].1 == fields@[13].value@);
    assert(models[14].1 == fields@[14].value@);
    let delay = match read_duration(&readings.initial_delay, "首次检查等待") {
        Ok(value) => value,
        Err(message) => return Err(message),
    };
    let period = match read_duration(&readings.period, "检查周期") {
        Ok(value) => value,
        Err(message) => return Err(message),
    };
    let timeout = match read_duration(&readings.timeout, "单次检查超时") {
        Ok(value) => value,
        Err(message) => return Err(message),
    };
    let success = match parse_u32(fields[13].value.as_str(), "连续成功阈值") {
        Ok(value) => value,
        Err(message) => return Err(message),
    };
    let failure = match parse_u32(fields[14].value.as_str(), "连续失败阈值") {
        Ok(value) => value,
        Err(message) => return Err(message),
    };
    Ok((delay, period, timeout, success, failure))
}

/// Reads an exec probe's command, arguments and working directory.
fn read_exec(fields: &[DialogField]) -> (result: Result<(String, Vec<String>, Option<String>), String>)
    requires
        fields@.len() >= 15,
    ensures
        match exec_read(field_models(fields@)) {
            Ok((command, args, cwd)) => result matches Ok((found_command, found_args, found_cwd))
                && found_command@ == command && found_args.deep_view() == args && found_cwd.deep_view() == cwd,
            Err(expected) => result matches Err(message) && message@ == expected,
        },
{
    let ghost models = field_models(fields@);
    assert(models[1].1 == fields@[1].value@);
    assert(models[2].1 == fields@[2].value@);
    assert(models[3].1 == fields@[3].value@);
    let command = match required_value(fields[1].value.as_str(), "Exec 命令") {
        Ok(value) => value,
        Err(message) => return Err(message),
    };
    let args = match parse_args(fields[2].value.as_str(), "Exec 参数") {
        Ok(value) => value,
        Err(message) => return Err(message),
    };
    let cwd = optional(fields[3].value.as_str());
    Ok((command, args, cwd))
}

/// Reads an HTTP probe.
fn read_http(fields: &[DialogField]) -> (result: Result<FormHttpHealthCheck, String>)
    requires
        fields@.len() >= 15,
    ensures
        match http_read(field_models(fields@)) {
            Ok(http) => result matches Ok(found) && found@ == http,
            Err(expected) => result matches Err(message) && message@ == expected,
        },
{
    let ghost models = field_models(fields@);
    assert(models[4].1 == fields@[4].value@);
    assert(models[5].1 == fields@[5].value@);
    assert(models[6].1 == fields@[6].value@);
    assert(models[7].1 == fields@[7].value@);
    assert(models[8].1 == fields@[8].value@);
    assert(models[9].1 == fields@[9].value@);
    let host = match required_value(fields[5].value.as_str(), "HTTP 主机") {
        Ok(value) => value,
        Err(message) => return Err(message),
    };
    let port = match parse_optional_u16(fields[6].value.as_str(), "HTTP 端口") {
        Ok(value) => value,
        Err(message) => return Err(message),
    };
    let path = match required_value(fields[7].value.as_str(), "HTTP 路径") {
        Ok(value) => value,
        Err(message) => return Err(message),
    };
    let headers = match parse_map(fields[8].value.as_str(), "HTTP 请求头") {
        Ok(value) => value,
        Err(message) => return Err(message),
    };
    let status_code = match parse_u16(fields[9].value.as_str(), "HTTP 预期状态码") {
        Ok(value) => value,
        Err(message) => return Err(message),
    };
    Ok(FormHttpHealthCheck { scheme: fields[4].value.clone(), host, port, path, headers, status_code })
}

/// Applies the health-check dialog to a task: no check, an exec probe or an HTTP probe, which
/// the task then declares itself; on an error the task stays as it was.
#[verifier::rlimit(60)]
pub fn commit_health(fields: &[DialogField], task: &mut FormTask, readings: &HealthReadings) -> (result:
    Result<(), String>)
    requires
        fields@.len() >= 15,
    ensures
        match health_read(
            field_models(fields@),
            (
                crate::form_task::reading_model(readings.initial_delay),
                crate::form_task::reading_model(readings.period),
                crate::form_task::reading_model(readings.timeout),
            ),
        ) {
            Ok(health) => result is Ok && final(task)@ == with_health(old(task)@, health),
            Err(expected) => result matches Err(message) && message@ == expected && final(task)@
                == old(task)@,
        },
{
    let ghost models = field_models(fields@);
    assert(models[0].1 == fields@[0].value@);
    let none = "none".to_owned();
    let exec = "exec".to_owned();
    let http = "http".to_owned();
    proof {
        reveal_strlit("none");
        reveal_strlit("exec");
        reveal_strlit("http");
    }
    let health = if same_text(&fields[0].value, &none) {
        None
    } else if same_text(&fields[0].value, &exec) {
        let (command, args, cwd) = match read_exec(fields) {
            Ok(parts) => parts,
            Err(message) => return Err(message),
        };
        let (delay, period, timeout, success, failure) = match read_timing(fields, readings) {
            Ok(timing) => timing,
            Err(message) => return Err(message),
        };
        Some(
            FormHealthCheck {
                command: Some(command),
                args,
                cwd,
                http_get: None,
                initial_delay_ms: delay,
                period_ms: period,
                timeout_ms: timeout,
                success_threshold: success,
                failure_threshold: failure,
            },
        )
    } else if same_text(&fields[0].value, &http) {
        let probe = match read_http(fields) {
            Ok(probe) => probe,
            Err(message) => return Err(message),
        };
        let (delay, period, timeout, success, failure) = match read_timing(fields, readings) {
            Ok(timing) => timing,
            Err(message) => return Err(message),
        };
        let no_args: Vec<String> = Vec::new();
        assert(no_args.deep_view() =~= Seq::<Seq<char>>::empty());
        Some(
            FormHealthCheck {
                command: None,
                args: no_args,
                cwd: None,
                http_get: Some(probe),
                initial_delay_ms: delay,
                period_ms: period,
                timeout_ms: timeout,
                success_threshold: success,
                failure_threshold: failure,
            },
        )
    } else {
        return Err("健康检查类型只能是 none、exec 或 http".to_owned());
    };
    let declared = health.is_some();
    task.healthcheck = health;
    task.set_origin("healthcheck", if declared { ValueOrigin::Task } else { ValueOrigin::BuiltIn });
    Ok(())
}

} // verus!
