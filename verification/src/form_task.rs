//! A task as the structured configuration form edits it, with where each of its settings
//! comes from, and the task dialog's fields and how they are applied back.
//!
//! Durations are held in milliseconds. Turning them into the configuration's duration syntax
//! and reading that syntax back is not part of this library: the dialog takes the formatted
//! texts, and applying it takes what was read from each non-blank duration field.

use vstd::prelude::*;

use crate::form_dialog::{optional_text, text_field_model, text_or_empty};
use crate::form_health::{health_view, FormHealthCheck, HealthModel};
use crate::form_field::{field, DialogField, DialogFieldKind, FieldModel};
use crate::form_value::{
    dependencies_text, integer_list, optional, parse_i32_list, parse_u32, unsigned_message,
    FormTaskDependency,
};
use crate::json::{
    args_text, integers_text, json_integer_array, json_string_array, json_string_object,
    keys_increasing, map_text,
};
use crate::number::{digits_of, natural_text, parse_unsigned};
use crate::text::{append_text, joined, same_text, trimmed};

verus! {

/// Where the effective value of a task setting comes from.
#[derive(Clone, Copy, Debug, PartialEq, Eq, Structural)]
pub enum ValueOrigin {
    /// The built-in default.
    BuiltIn,
    /// The project's environment.
    ProjectEnv,
    /// The project's task defaults.
    TaskDefaults,
    /// The active profile.
    Profile,
    /// A named task template.
    TaskTemplate,
    /// The task's environment file.
    EnvFile,
    /// The task's own declaration.
    Task,
}

/// A task of the form.
#[derive(Clone, Debug)]
pub struct FormTask {
    /// Named template the task extends.
    pub extends: Option<String>,
    /// Program path or name.
    pub command: String,
    /// Program arguments.
    pub args: Vec<String>,
    /// Working directory.
    pub cwd: Option<String>,
    /// Explicit environment file.
    pub env_file: Option<String>,
    /// Environment variables, in key order.
    pub env: Vec<(String, String)>,
    /// Exit codes that count as success.
    pub success_exit_codes: Vec<i32>,
    /// Upstream tasks and their conditions, in name order.
    pub depends_on: Vec<(String, FormTaskDependency)>,
    /// Restart policy.
    pub restart: String,
    /// Wait before a restart, in milliseconds.
    pub restart_delay_ms: u64,
    /// Most consecutive automatic restarts; zero means no limit.
    pub max_restarts: u32,
    /// Stable running time after which the restart count starts again, in milliseconds.
    pub restart_reset_after_ms: u64,
    /// Wait for a graceful stop, in milliseconds.
    pub shutdown_timeout_ms: u64,
    /// Health check, when the task has one.
    pub healthcheck: Option<FormHealthCheck>,
    /// Upload targets as the compact JSON the configuration keeps them in, written by the
    /// caller; nothing when the task has none.
    pub uploads: Option<String>,
    /// Origin of each setting named here; a setting not named has its built-in default.
    pub origins: Vec<(String, ValueOrigin)>,
}

/// A task as a mathematical value.
pub ghost struct TaskModel {
    pub extends: Option<Seq<char>>,
    pub command: Seq<char>,
    pub args: Seq<Seq<char>>,
    pub cwd: Option<Seq<char>>,
    pub env_file: Option<Seq<char>>,
    pub env: Seq<(Seq<char>, Seq<char>)>,
    pub success_exit_codes: Seq<i32>,
    pub depends_on: Seq<(Seq<char>, Seq<char>)>,
    pub restart: Seq<char>,
    pub restart_delay_ms: u64,
    pub max_restarts: u32,
    pub restart_reset_after_ms: u64,
    pub shutdown_timeout_ms: u64,
    pub healthcheck: Option<HealthModel>,
    pub uploads: Option<Seq<char>>,
    pub origins: Seq<(Seq<char>, ValueOrigin)>,
}

impl View for FormTask {
    type V = TaskModel;

    open spec fn view(&self) -> TaskModel {
        TaskModel {
            extends: self.extends.deep_view(),
            command: self.command@,
            args: self.args.deep_view(),
            cwd: self.cwd.deep_view(),
            env_file: self.env_file.deep_view(),
            env: self.env@.map_values(|entry: (String, String)| (entry.0@, entry.1@)),
            success_exit_codes: self.success_exit_codes@,
            depends_on: self.depends_on@.map_values(
                |entry: (String, FormTaskDependency)| (entry.0@, entry.1.condition@),
            ),
            restart: self.restart@,
            restart_delay_ms: self.restart_delay_ms,
            max_restarts: self.max_restarts,
            restart_reset_after_ms: self.restart_reset_after_ms,
            shutdown_timeout_ms: self.shutdown_timeout_ms,
            healthcheck: health_view(self.healthcheck),
            uploads: self.uploads.deep_view(),
            origins: self.origins@.map_values(|entry: (String, ValueOrigin)| (entry.0@, entry.1)),
        }
    }
}

/// Position of the first origin entry at or after `start` for `name`; -1 when none.
pub open spec fn origin_position(origins: Seq<(Seq<char>, ValueOrigin)>, name: Seq<char>, start: int) -> int
    decreases origins.len() - start,
{
    if start < 0 || start >= origins.len() {
        -1
    } else if origins[start].0 == name {
        start
    } else {
        origin_position(origins, name, start + 1)
    }
}

/// The origin of a setting: the first entry naming it, the built-in default otherwise.
pub open spec fn origin_of(origins: Seq<(Seq<char>, ValueOrigin)>, name: Seq<char>) -> ValueOrigin {
    let position = origin_position(origins, name, 0);
    if 0 <= position < origins.len() {
        origins[position].1
    } else {
        ValueOrigin::BuiltIn
    }
}

/// Whether the task declares a setting itself.
pub open spec fn declares(task: TaskModel, name: Seq<char>) -> bool {
    origin_of(task.origins, name) == ValueOrigin::Task
}

/// The origins with `name` set to `origin`: the first entry naming it changes, or one is
/// added at the end.
pub open spec fn with_origin(
    origins: Seq<(Seq<char>, ValueOrigin)>,
    name: Seq<char>,
    origin: ValueOrigin,
) -> Seq<(Seq<char>, ValueOrigin)> {
    let position = origin_position(origins, name, 0);
    if 0 <= position < origins.len() {
        origins.update(position, (name, origin))
    } else {
        origins.push((name, origin))
    }
}

/// Lemma: a found origin position lies within the entries and names the setting.
proof fn lemma_origin_position(origins: Seq<(Seq<char>, ValueOrigin)>, name: Seq<char>, start: int)
    requires
        0 <= start,
    ensures
        ({
            let position = origin_position(origins, name, start);
            &&& -1 <= position < origins.len()
            &&& position >= 0 ==> position >= start && origins[position].0 == name
            &&& forall|index: int|
                start <= index < origins.len() && (position < 0 || index < position)
                    ==> #[trigger] origins[index].0 != name
        }),
    decreases origins.len() - start,
{
    if start < origins.len() && origins[start].0 != name {
        lemma_origin_position(origins, name, start + 1);
    }
}

/// Law: after setting a setting's origin, that is its origin, and every other setting keeps
/// its own.
pub proof fn lemma_with_origin(
    origins: Seq<(Seq<char>, ValueOrigin)>,
    name: Seq<char>,
    origin: ValueOrigin,
    other: Seq<char>,
)
    ensures
        origin_of(with_origin(origins, name, origin), name) == origin,
        other != name ==> origin_of(with_origin(origins, name, origin), other) == origin_of(
            origins,
            other,
        ),
{
    let updated = with_origin(origins, name, origin);
    lemma_origin_position(origins, name, 0);
    lemma_origin_position(updated, name, 0);
    lemma_origin_position(origins, other, 0);
    lemma_origin_position(updated, other, 0);
    let position = origin_position(origins, name, 0);
    let found = origin_position(updated, name, 0);
    if 0 <= position {
        assert(updated[position].0 == name);
        if found >= 0 && found < position {
            assert(updated[found] == origins[found]);
        }
    } else {
        assert(updated[origins.len() as int].0 == name);
        if found >= 0 && found < origins.len() {
            assert(updated[found] == origins[found]);
        }
    }
    if other != name {
        let was = origin_position(origins, other, 0);
        let now = origin_position(updated, other, 0);
        if was >= 0 {
            assert(updated[was] == origins[was]);
            if now >= 0 && now < was {
                assert(updated[now].0 == other);
                if now != position {
                    assert(updated[now] == origins[now]);
                }
            }
        } else if now >= 0 {
            if now < origins.len() && now != position {
                assert(updated[now] == origins[now]);
            }
        }
    }
}

impl FormTask {
    /// Origin of a setting.
    pub fn origin(&self, name: &str) -> (result: ValueOrigin)
        ensures
            result == origin_of(self@.origins, name@),
    {
        let ghost origins = self@.origins;
        let target = name.to_owned();
        let mut index: usize = 0;
        while index < self.origins.len()
            invariant
                origins == self@.origins,
                target@ == name@,
                index <= self.origins@.len(),
                origin_position(origins, name@, index as int) == origin_position(origins, name@, 0),
            decreases self.origins@.len() - index,
        {
            assert(origins[index as int] == (self.origins@[index as int].0@, self.origins@[index as int].1));
            if same_text(&self.origins[index].0, &target) {
                return self.origins[index].1;
            }
            index += 1;
        }
        ValueOrigin::BuiltIn
    }

    /// Whether the task declares a setting itself.
    pub fn explicit(&self, name: &str) -> (result: bool)
        ensures
            result == declares(self@, name@),
    {
        self.origin(name) == ValueOrigin::Task
    }

    /// Records where a setting now comes from.
    pub fn set_origin(&mut self, name: &str, origin: ValueOrigin)
        ensures
            final(self)@ == (TaskModel {
                origins: with_origin(old(self)@.origins, name@, origin),
                ..old(self)@
            }),
    {
        let ghost origins = self@.origins;
        let target = name.to_owned();
        let mut index: usize = 0;
        while index < self.origins.len()
            invariant
                origins == self@.origins,
                self@ == old(self)@,
                target@ == name@,
                index <= self.origins@.len(),
                origin_position(origins, name@, index as int) == origin_position(origins, name@, 0),
            decreases self.origins@.len() - index,
        {
            assert(origins[index as int] == (self.origins@[index as int].0@, self.origins@[index as int].1));
            if same_text(&self.origins[index].0, &target) {
                self.origins.set(index, (target, origin));
                assert(self@.origins =~= with_origin(origins, name@, origin));
                return;
            }
            index += 1;
        }
        self.origins.push((target, origin));
        assert(self@.origins =~= with_origin(origins, name@, origin));
    }
}

/// Duration settings of a task in the configuration's duration syntax, for the dialog.
#[derive(Clone, Debug)]
pub struct TaskDurationTexts {
    /// Wait before a restart.
    pub restart_delay: String,
    /// Restart count reset window.
    pub restart_reset_after: String,
    /// Graceful stop timeout.
    pub shutdown_timeout: String,
}

/// A text shown only where the task declares the setting, the empty text otherwise.
pub open spec fn declared_text(task: TaskModel, name: Seq<char>, value: Seq<char>) -> Seq<char> {
    if declares(task, name) {
        value
    } else {
        Seq::empty()
    }
}

/// Choices of the restart policy field.
pub open spec fn restart_choices() -> Seq<Seq<char>> {
    seq!["inherit"@, "never"@, "on-failure"@, "always"@]
}

/// The fields of a task dialog: empty texts, `[]` or `inherit` stand for settings the task
/// does not declare itself.
pub open spec fn task_dialog_fields(
    original: Option<Seq<char>>,
    task: TaskModel,
    durations: (Seq<char>, Seq<char>, Seq<char>),
) -> Seq<FieldModel> {
    let restart = if declares(task, "restart"@) {
        task.restart
    } else {
        "inherit"@
    };
    seq![
        text_field_model("Task 名称"@, text_or_empty(original)),
        text_field_model("命令覆盖（空=继承，可内嵌参数）"@, declared_text(task, "command"@, task.command)),
        text_field_model("参数覆盖（JSON 数组）"@, if declares(task, "args"@) {
            json_string_array(task.args)
        } else {
            "[]"@
        }),
        text_field_model("工作目录覆盖（空=继承）"@, declared_text(task, "cwd"@, text_or_empty(task.cwd))),
        text_field_model("环境文件（可空）"@, text_or_empty(task.env_file)),
        text_field_model("环境变量（JSON 对象或 KEY=VALUE）"@, json_string_object(task.env)),
        text_field_model(
            "依赖（task:条件，逗号分隔）"@,
            joined(task.depends_on.map_values(|entry: (Seq<char>, Seq<char>)| entry.0 + ":"@ + entry.1), ","@),
        ),
        text_field_model(
            "成功退出码覆盖（空=继承）"@,
            declared_text(task, "success_exit_codes"@, json_integer_array(task.success_exit_codes)),
        ),
        ("重启策略覆盖"@, restart, restart_choices(), restart.len() as int, DialogFieldKind::Choice),
        text_field_model("重启等待覆盖（如 750ms/5s，空=继承）"@, declared_text(task, "restart_delay_ms"@, durations.0)),
        text_field_model(
            "最大重启次数覆盖（空=继承）"@,
            declared_text(task, "max_restarts"@, digits_of(task.max_restarts as nat)),
        ),
        text_field_model(
            "计数重置覆盖（如 1m，空=继承）"@,
            declared_text(task, "restart_reset_after_ms"@, durations.1),
        ),
        text_field_model(
            "停止超时覆盖（如 5s，空=继承）"@,
            declared_text(task, "shutdown_timeout_ms"@, durations.2),
        ),
        text_field_model("继承模板（可空）"@, text_or_empty(task.extends)),
    ]
}

/// The text of an optional value, empty when there is none.
fn text_of(value: &Option<String>) -> (result: String)
    ensures
        result@ == text_or_empty(value.deep_view()),
{
    match value {
        Some(text) => text.clone(),
        None => String::new(),
    }
}

/// A text shown only where the task declares the setting.
fn declared(task: &FormTask, name: &str, value: String) -> (result: String)
    ensures
        result@ == declared_text(task@, name@, value@),
{
    if task.explicit(name) {
        value
    } else {
        String::new()
    }
}

/// The fields of the dialog editing a task; `durations` holds its duration settings in the
/// configuration's duration syntax.
#[verifier::rlimit(40)]
pub fn task_fields(original: Option<&str>, task: &FormTask, durations: &TaskDurationTexts) -> (result: Vec<
    DialogField,
>)
    requires
        keys_increasing(task@.env),
    ensures
        result.deep_view() == task_dialog_fields(
            match original {
                Some(name) => Some(name@),
                None => None,
            },
            task@,
            (durations.restart_delay@, durations.restart_reset_after@, durations.shutdown_timeout@),
        ),
{
    let empty: [&str; 0] = [];
    assert(empty@.map_values(|choice: &str| choice@) =~= Seq::<Seq<char>>::empty());
    let policies: [&str; 4] = ["inherit", "never", "on-failure", "always"];
    assert(policies@.map_values(|choice: &str| choice@) =~= restart_choices());
    let name = match original {
        Some(name) => name.to_owned(),
        None => String::new(),
    };
    let command = declared(task, "command", task.command.clone());
    assert(task.args@.map_values(|value: String| value@) =~= task.args.deep_view());
    let arguments = if task.explicit("args") {
        args_text(task.args.as_slice())
    } else {
        "[]".to_owned()
    };
    let cwd = declared(task, "cwd", text_of(&task.cwd));
    let env_file = text_of(&task.env_file);
    let env = map_text(task.env.as_slice());
    let dependencies = dependencies_text(task.depends_on.as_slice());
    let codes = declared(task, "success_exit_codes", integers_text(task.success_exit_codes.as_slice()));
    let restart = if task.explicit("restart") {
        task.restart.clone()
    } else {
        "inherit".to_owned()
    };
    let delay = declared(task, "restart_delay_ms", durations.restart_delay.clone());
    let restarts = declared(task, "max_restarts", natural_text(task.max_restarts as u64));
    let reset = declared(task, "restart_reset_after_ms", durations.restart_reset_after.clone());
    let shutdown = declared(task, "shutdown_timeout_ms", durations.shutdown_timeout.clone());
    let extends = text_of(&task.extends);
    let mut fields: Vec<DialogField> = Vec::new();
    fields.push(field("Task 名称", name.as_str(), &empty));
    fields.push(field("命令覆盖（空=继承，可内嵌参数）", command.as_str(), &empty));
    fields.push(field("参数覆盖（JSON 数组）", arguments.as_str(), &empty));
    fields.push(field("工作目录覆盖（空=继承）", cwd.as_str(), &empty));
    fields.push(field("环境文件（可空）", env_file.as_str(), &empty));
    fields.push(field("环境变量（JSON 对象或 KEY=VALUE）", env.as_str(), &empty));
    fields.push(field("依赖（task:条件，逗号分隔）", dependencies.as_str(), &empty));
    fields.push(field("成功退出码覆盖（空=继承）", codes.as_str(), &empty));
    fields.push(field("重启策略覆盖", restart.as_str(), &policies));
    fields.push(field("重启等待覆盖（如 750ms/5s，空=继承）", delay.as_str(), &empty));
    fields.push(field("最大重启次数覆盖（空=继承）", restarts.as_str(), &empty));
    fields.push(field("计数重置覆盖（如 1m，空=继承）", reset.as_str(), &empty));
    fields.push(field("停止超时覆盖（如 5s，空=继承）", shutdown.as_str(), &empty));
    fields.push(field("继承模板（可空）", extends.as_str(), &empty));
    let ghost expected = task_dialog_fields(
        match original {
            Some(name) => Some(name@),
            None => None,
        },
        task@,
        (durations.restart_delay@, durations.restart_reset_after@, durations.shutdown_timeout@),
    );
    proof {
        reveal_strlit("[]");
        reveal_strlit("inherit");
        assert(task.depends_on@.map_values(
            |entry: (String, FormTaskDependency)| entry.0@ + ":"@ + entry.1.condition@,
        ) =~= task@.depends_on.map_values(|entry: (Seq<char>, Seq<char>)| entry.0 + ":"@ + entry.1));
    }
    assert(fields.deep_view()[0] == expected[0]);
    assert(fields.deep_view()[2] == expected[2]);
    assert(fields.deep_view()[6] == expected[6]);
    assert(fields.deep_view()[8] == expected[8]);
    assert(fields.deep_view() =~= expected);
    fields
}

/// What the configuration's duration syntax read from the task dialog's duration fields; only
/// a field that is not blank is read.
#[derive(Debug)]
pub struct DurationReadings {
    /// Reading of the restart wait field.
    pub restart_delay: Result<u64, String>,
    /// Reading of the restart count reset field.
    pub restart_reset_after: Result<u64, String>,
    /// Reading of the stop timeout field.
    pub shutdown_timeout: Result<u64, String>,
}

/// A reading as a mathematical value.
pub open spec fn reading_model(reading: Result<u64, String>) -> Result<u64, Seq<char>> {
    match reading {
        Ok(value) => Ok(value),
        Err(error) => Err(error@),
    }
}

/// Message for a duration the syntax refused.
pub open spec fn duration_message(label: Seq<char>, error: Seq<char>) -> Seq<char> {
    label + "无效："@ + error
}

/// A duration override: nothing for a blank field, else the reading of its text.
pub open spec fn duration_override(text: Seq<char>, reading: Result<u64, Seq<char>>, label: Seq<char>) -> Result<
    Option<u64>,
    Seq<char>,
> {
    if optional_text(text) is None {
        Ok(None)
    } else {
        match reading {
            Ok(value) => Ok(Some(value)),
            Err(error) => Err(duration_message(label, error)),
        }
    }
}

/// The success exit code override: nothing for a blank field, else its integer list.
pub open spec fn codes_override(text: Seq<char>) -> Result<Option<Seq<i32>>, Seq<char>> {
    match optional_text(text) {
        None => Ok(None),
        Some(value) => match integer_list(value, "成功退出码"@) {
            Ok(codes) => Ok(Some(codes)),
            Err(message) => Err(message),
        },
    }
}

/// The restart limit override: nothing for a blank field, else its non-negative number.
pub open spec fn restarts_override(text: Seq<char>) -> Result<Option<u32>, Seq<char>> {
    match optional_text(text) {
        None => Ok(None),
        Some(value) => match parse_unsigned(trimmed(value), u32::MAX as int) {
            Some(number) => Ok(Some(number as u32)),
            None => Err(unsigned_message("最大重启次数"@)),
        },
    }
}

/// The origin an override gives its setting: the task's own, or the built-in default when
/// the field was left to inherit.
pub open spec fn override_origin(present: bool) -> ValueOrigin {
    if present {
        ValueOrigin::Task
    } else {
        ValueOrigin::BuiltIn
    }
}

/// A value replaced where an override is there.
pub open spec fn overridden<T>(value: T, replacement: Option<T>) -> T {
    match replacement {
        Some(replacement) => replacement,
        None => value,
    }
}

/// The task with one inheritable setting overridden, or left to inherit when there is no
/// value, and its origin recorded.
pub open spec fn overridden_origin(task: TaskModel, name: Seq<char>, present: bool) -> Seq<(Seq<char>, ValueOrigin)> {
    with_origin(task.origins, name, override_origin(present))
}

/// The task with the dialog's working directory applied.
pub open spec fn with_cwd(task: TaskModel, cwd: Option<Seq<char>>) -> TaskModel {
    TaskModel { cwd, origins: overridden_origin(task, "cwd"@, cwd is Some), ..task }
}

/// The task with the dialog's exit codes applied.
pub open spec fn with_codes(task: TaskModel, codes: Option<Seq<i32>>) -> TaskModel {
    TaskModel {
        success_exit_codes: overridden(task.success_exit_codes, codes),
        origins: overridden_origin(task, "success_exit_codes"@, codes is Some),
        ..task
    }
}

/// The task with the dialog's restart policy applied.
pub open spec fn with_restart(task: TaskModel, restart: Option<Seq<char>>) -> TaskModel {
    TaskModel {
        restart: overridden(task.restart, restart),
        origins: overridden_origin(task, "restart"@, restart is Some),
        ..task
    }
}

/// The task with the dialog's restart wait applied.
pub open spec fn with_delay(task: TaskModel, delay: Option<u64>) -> TaskModel {
    TaskModel {
        restart_delay_ms: overridden(task.restart_delay_ms, delay),
        origins: overridden_origin(task, "restart_delay_ms"@, delay is Some),
        ..task
    }
}

/// The task with the dialog's restart limit applied.
pub open spec fn with_limit(task: TaskModel, limit: Option<u32>) -> TaskModel {
    TaskModel {
        max_restarts: overridden(task.max_restarts, limit),
        origins: overridden_origin(task, "max_restarts"@, limit is Some),
        ..task
    }
}

/// The task with the dialog's count reset window applied.
pub open spec fn with_reset(task: TaskModel, reset: Option<u64>) -> TaskModel {
    TaskModel {
        restart_reset_after_ms: overridden(task.restart_reset_after_ms, reset),
        origins: overridden_origin(task, "restart_reset_after_ms"@, reset is Some),
        ..task
    }
}

/// The task with the dialog's stop timeout applied.
pub open spec fn with_timeout(task: TaskModel, timeout: Option<u64>) -> TaskModel {
    TaskModel {
        shutdown_timeout_ms: overridden(task.shutdown_timeout_ms, timeout),
        origins: overridden_origin(task, "shutdown_timeout_ms"@, timeout is Some),
        ..task
    }
}

/// The restart policy the dialog chose: nothing for `inherit`.
pub open spec fn restart_choice(text: Seq<char>) -> Option<Seq<char>> {
    if text != "inherit"@ {
        Some(text)
    } else {
        None
    }
}

/// The task after applying the dialog's working directory, exit codes, restart policy,
/// restart wait, restart limit, count reset and stop timeout in that order, each either the
/// task's own value or, when left blank (`inherit` for the policy), inherited; with whether
/// that went through. The first field that cannot be read stops it: the settings before it
/// stay applied, and its message is the error.
pub open spec fn inheritable_applied(
    fields: Seq<FieldModel>,
    task: TaskModel,
    readings: (Result<u64, Seq<char>>, Result<u64, Seq<char>>, Result<u64, Seq<char>>),
) -> (TaskModel, Result<(), Seq<char>>) {
    let step1 = with_cwd(task, optional_text(fields[3].1));
    match codes_override(fields[7].1) {
        Err(message) => (step1, Err(message)),
        Ok(codes) => {
            let step3 = with_restart(with_codes(step1, codes), restart_choice(fields[8].1));
            match duration_override(fields[9].1, readings.0, "重启等待"@) {
                Err(message) => (step3, Err(message)),
                Ok(delay) => {
                    let step4 = with_delay(step3, delay);
                    match restarts_override(fields[10].1) {
                        Err(message) => (step4, Err(message)),
                        Ok(limit) => {
                            let step5 = with_limit(step4, limit);
                            match duration_override(fields[11].1, readings.1, "重启计数重置"@) {
                                Err(message) => (step5, Err(message)),
                                Ok(reset) => {
                                    let step6 = with_reset(step5, reset);
                                    match duration_override(fields[12].1, readings.2, "停止超时"@) {
                                        Err(message) => (step6, Err(message)),
                                        Ok(timeout) => (with_timeout(step6, timeout), Ok(())),
                                    }
                                },
                            }
                        },
                    }
                },
            }
        },
    }
}

/// Reads a duration override.
pub(crate) fn read_duration(text: &str, reading: &Result<u64, String>, label: &str) -> (result: Result<Option<u64>, String>)
    ensures
        match duration_override(text@, reading_model(*reading), label@) {
            Ok(value) => result == Ok::<Option<u64>, String>(value),
            Err(expected) => result matches Err(message) && message@ == expected,
        },
{
    match optional(text) {
        None => Ok(None),
        Some(_) => match reading {
            Ok(value) => Ok(Some(*value)),
            Err(error) => {
                let mut message = label.to_owned();
                append_text(&mut message, "无效：");
                append_text(&mut message, error.as_str());
                Err(message)
            },
        },
    }
}

/// Applies the task dialog's inheritable settings to a task, in order: each field either
/// overrides the setting or, left blank, lets it be inherited. The first field that cannot be
/// read stops it with its message; the settings before it stay applied.
#[verifier::rlimit(80)]
pub fn apply_inheritable_fields(
    fields: &[DialogField],
    task: &mut FormTask,
    durations: &DurationReadings,
) -> (result: Result<(), String>)
    requires
        fields@.len() >= 13,
    ensures
        ({
            let (applied, outcome) = inheritable_applied(
                fields@.map_values(|field: DialogField| field.deep_view()),
                old(task)@,
                (
                    reading_model(durations.restart_delay),
                    reading_model(durations.restart_reset_after),
                    reading_model(durations.shutdown_timeout),
                ),
            );
            &&& final(task)@ == applied
            &&& match outcome {
                Ok(()) => result is Ok,
                Err(expected) => result matches Err(message) && message@ == expected,
            }
        }),
{
    let ghost models = fields@.map_values(|field: DialogField| field.deep_view());
    assert(models[3].1 == fields@[3].value@);
    assert(models[7].1 == fields@[7].value@);
    assert(models[8].1 == fields@[8].value@);
    assert(models[9].1 == fields@[9].value@);
    assert(models[10].1 == fields@[10].value@);
    assert(models[11].1 == fields@[11].value@);
    assert(models[12].1 == fields@[12].value@);
    task.cwd = optional(fields[3].value.as_str());
    task.set_origin("cwd", if task.cwd.is_some() { ValueOrigin::Task } else { ValueOrigin::BuiltIn });
    let codes = match optional(fields[7].value.as_str()) {
        None => None,
        Some(value) => match parse_i32_list(value.as_str(), "成功退出码") {
            Ok(codes) => Some(codes),
            Err(message) => return Err(message),
        },
    };
    let has_codes = codes.is_some();
    if let Some(codes) = codes {
        task.success_exit_codes = codes;
    }
    task.set_origin("success_exit_codes", if has_codes { ValueOrigin::Task } else { ValueOrigin::BuiltIn });
    let inherit = "inherit".to_owned();
    proof {
        reveal_strlit("inherit");
    }
    let restart = if same_text(&fields[8].value, &inherit) {
        None
    } else {
        Some(fields[8].value.clone())
    };
    let has_restart = restart.is_some();
    if let Some(restart) = restart {
        task.restart = restart;
    }
    task.set_origin("restart", if has_restart { ValueOrigin::Task } else { ValueOrigin::BuiltIn });
    let delay = match read_duration(fields[9].value.as_str(), &durations.restart_delay, "重启等待") {
        Ok(value) => value,
        Err(message) => return Err(message),
    };
    if let Some(delay) = delay {
        task.restart_delay_ms = delay;
    }
    task.set_origin("restart_delay_ms", if delay.is_some() { ValueOrigin::Task } else { ValueOrigin::BuiltIn });
    let restarts = match optional(fields[10].value.as_str()) {
        None => None,
        Some(value) => match parse_u32(value.as_str(), "最大重启次数") {
            Ok(number) => Some(number),
            Err(message) => return Err(message),
        },
    };
    if let Some(restarts) = restarts {
        task.max_restarts = restarts;
    }
    task.set_origin("max_restarts", if restarts.is_some() { ValueOrigin::Task } else { ValueOrigin::BuiltIn });
    let reset = match read_duration(
        fields[11].value.as_str(),
        &durations.restart_reset_after,
        "重启计数重置",
    ) {
        Ok(value) => value,
        Err(message) => return Err(message),
    };
    if let Some(reset) = reset {
        task.restart_reset_after_ms = reset;
    }
    task.set_origin(
        "restart_reset_after_ms",
        if reset.is_some() { ValueOrigin::Task } else { ValueOrigin::BuiltIn },
    );
    let shutdown = match read_duration(fields[12].value.as_str(), &durations.shutdown_timeout, "停止超时") {
        Ok(value) => value,
        Err(message) => return Err(message),
    };
    if let Some(shutdown) = shutdown {
        task.shutdown_timeout_ms = shutdown;
    }
    task.set_origin(
        "shutdown_timeout_ms",
        if shutdown.is_some() { ValueOrigin::Task } else { ValueOrigin::BuiltIn },
    );
    Ok(())
}

} // verus!
