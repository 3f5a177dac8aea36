//! The project-wide task defaults of the structured configuration form.

use vstd::prelude::*;

use crate::directory_picker::join_texts;
use crate::config_yaml::{append_plain, map_lines, optional_line, pair_entries, plain_line};
use crate::form_task::{origin_of, with_origin, FormTask, TaskModel, ValueOrigin};
use crate::json::quoted;
use crate::number::{digits_of, natural_text, signed_text};
use crate::text::{append_text, joined};
use crate::yaml_text::{append_spaces, list_lines, optional_yaml, yaml_i32_array};

verus! {

/// Task settings the project declares for every task that does not set them itself.
#[derive(Clone, Debug)]
pub struct FormTaskDefaults {
    /// Working directory.
    pub cwd: Option<String>,
    /// Environment, in key order.
    pub env: Vec<(String, String)>,
    /// Exit codes that count as success.
    pub success_exit_codes: Option<Vec<i32>>,
    /// Restart policy.
    pub restart: Option<String>,
    /// Wait before a restart, in milliseconds.
    pub restart_delay_ms: Option<u64>,
    /// Most consecutive automatic restarts.
    pub max_restarts: Option<u32>,
    /// Stable running time after which the restart count starts again, in milliseconds.
    pub restart_reset_after_ms: Option<u64>,
    /// Wait for a graceful stop, in milliseconds.
    pub shutdown_timeout_ms: Option<u64>,
}

/// Task defaults as a mathematical value.
pub ghost struct DefaultsModel {
    pub cwd: Option<Seq<char>>,
    pub env: Seq<(Seq<char>, Seq<char>)>,
    pub success_exit_codes: Option<Seq<i32>>,
    pub restart: Option<Seq<char>>,
    pub restart_delay_ms: Option<u64>,
    pub max_restarts: Option<u32>,
    pub restart_reset_after_ms: Option<u64>,
    pub shutdown_timeout_ms: Option<u64>,
}

impl View for FormTaskDefaults {
    type V = DefaultsModel;

    open spec fn view(&self) -> DefaultsModel {
        DefaultsModel {
            cwd: self.cwd.deep_view(),
            env: pair_entries(self.env@),
            success_exit_codes: match self.success_exit_codes {
                Some(values) => Some(values@),
                None => None,
            },
            restart: self.restart.deep_view(),
            restart_delay_ms: self.restart_delay_ms,
            max_restarts: self.max_restarts,
            restart_reset_after_ms: self.restart_reset_after_ms,
            shutdown_timeout_ms: self.shutdown_timeout_ms,
        }
    }
}

/// Whether the project declares no default at all.
pub open spec fn defaults_empty(defaults: DefaultsModel) -> bool {
    &&& defaults.cwd is None
    &&& defaults.env.len() == 0
    &&& defaults.success_exit_codes is None
    &&& defaults.restart is None
    &&& defaults.restart_delay_ms is None
    &&& defaults.max_restarts is None
    &&& defaults.restart_reset_after_ms is None
    &&& defaults.shutdown_timeout_ms is None
}

/// A `key: number` line for a number that is there, nothing otherwise.
pub open spec fn number_line(key: Seq<char>, value: Option<u64>) -> Seq<char> {
    match value {
        Some(value) => plain_line(true, 2, key, digits_of(value as nat)),
        None => Seq::empty(),
    }
}

/// The exit codes block, nothing when the project sets none.
pub open spec fn codes_part(values: Option<Seq<i32>>) -> Seq<char> {
    match values {
        Some(values) => list_lines(
            2,
            "success_exit_codes"@,
            values.map_values(|value: i32| signed_text(value as int)),
        ),
        None => Seq::empty(),
    }
}

/// The environment block, nothing for an empty environment.
pub open spec fn env_part(entries: Seq<(Seq<char>, Seq<char>)>) -> Seq<char> {
    if entries.len() == 0 {
        Seq::empty()
    } else {
        "  env:\n"@ + map_lines(4, entries)
    }
}

/// The restart policy line, nothing when the project sets none.
pub open spec fn restart_part(restart: Option<Seq<char>>) -> Seq<char> {
    match restart {
        Some(restart) => plain_line(true, 2, "restart"@, restart),
        None => Seq::empty(),
    }
}

/// The lines of the declared restart wait, restart limit, count reset window and stop
/// timeout, in that order.
pub open spec fn numbers_part(defaults: DefaultsModel) -> Seq<char> {
    number_line("restart_delay_ms"@, defaults.restart_delay_ms) + number_line(
        "max_restarts"@,
        match defaults.max_restarts {
            Some(value) => Some(value as u64),
            None => None,
        },
    ) + number_line("restart_reset_after_ms"@, defaults.restart_reset_after_ms) + number_line(
        "shutdown_timeout_ms"@,
        defaults.shutdown_timeout_ms,
    )
}

/// The `task_defaults` section: nothing when the project declares no default; otherwise the
/// declared working directory, environment, exit codes, restart policy and numbers, in that
/// order.
pub open spec fn defaults_yaml(defaults: DefaultsModel) -> Seq<char> {
    if defaults_empty(defaults) {
        Seq::empty()
    } else {
        "task_defaults:\n"@ + optional_line(2, "cwd"@, defaults.cwd) + env_part(defaults.env) + codes_part(
            defaults.success_exit_codes,
        ) + restart_part(defaults.restart) + numbers_part(defaults)
    }
}

/// The label of a declared setting, nothing for an undeclared one.
pub open spec fn label_if(declared: bool, label: Seq<char>) -> Seq<Seq<char>> {
    if declared {
        seq![label]
    } else {
        Seq::empty()
    }
}

/// The labels of the declared defaults, in field order; the environment shows its size.
pub open spec fn declared_labels(defaults: DefaultsModel) -> Seq<Seq<char>> {
    label_if(defaults.cwd is Some, "cwd"@) + label_if(
        defaults.env.len() > 0,
        "env("@ + digits_of(defaults.env.len()) + ")"@,
    ) + label_if(defaults.success_exit_codes is Some, "成功退出码"@) + label_if(
        defaults.restart is Some,
        "重启策略"@,
    ) + label_if(defaults.restart_delay_ms is Some, "重启等待"@) + label_if(
        defaults.max_restarts is Some,
        "重启上限"@,
    ) + label_if(defaults.restart_reset_after_ms is Some, "计数重置"@) + label_if(
        defaults.shutdown_timeout_ms is Some,
        "停止超时"@,
    )
}

/// The compact summary of the defaults: their labels joined by `、`, or `未配置` when there
/// are none.
pub open spec fn defaults_summary(defaults: DefaultsModel) -> Seq<char> {
    let labels = declared_labels(defaults);
    if labels.len() == 0 {
        "未配置"@
    } else {
        joined(labels, "、"@)
    }
}

/// Whether a task takes a setting from the defaults: it neither sets it itself nor gets it
/// from a template or the active profile.
pub open spec fn inherits(task: TaskModel, name: Seq<char>) -> bool {
    let origin = origin_of(task.origins, name);
    origin != ValueOrigin::Task && origin != ValueOrigin::TaskTemplate && origin != ValueOrigin::Profile
}

/// Where an inherited setting comes from: the defaults when they declare it, the built-in
/// value otherwise.
pub open spec fn inherited_origin(declared: bool) -> ValueOrigin {
    if declared {
        ValueOrigin::TaskDefaults
    } else {
        ValueOrigin::BuiltIn
    }
}

/// The task with one inherited setting recorded as coming from the defaults or built in.
pub open spec fn marked(task: TaskModel, name: Seq<char>, declared: bool) -> TaskModel {
    TaskModel { origins: with_origin(task.origins, name, inherited_origin(declared)), ..task }
}

/// The task with the default working directory applied where it inherits it.
pub open spec fn cwd_step(defaults: DefaultsModel, task: TaskModel) -> TaskModel {
    if inherits(task, "cwd"@) {
        marked(TaskModel { cwd: defaults.cwd, ..task }, "cwd"@, defaults.cwd is Some)
    } else {
        task
    }
}

/// The task with the default exit codes, or exit code 0, applied where it inherits them.
pub open spec fn codes_step(defaults: DefaultsModel, task: TaskModel) -> TaskModel {
    if inherits(task, "success_exit_codes"@) {
        marked(
            TaskModel {
                success_exit_codes: match defaults.success_exit_codes {
                    Some(values) => values,
                    None => seq![0i32],
                },
                ..task
            },
            "success_exit_codes"@,
            defaults.success_exit_codes is Some,
        )
    } else {
        task
    }
}

/// The task with the default restart policy, or `never`, applied where it inherits it.
pub open spec fn restart_step(defaults: DefaultsModel, task: TaskModel) -> TaskModel {
    if inherits(task, "restart"@) {
        marked(
            TaskModel {
                restart: match defaults.restart {
                    Some(restart) => restart,
                    None => "never"@,
                },
                ..task
            },
            "restart"@,
            defaults.restart is Some,
        )
    } else {
        task
    }
}

/// The task with the default restart wait, or half a second, applied where it inherits it.
pub open spec fn delay_step(defaults: DefaultsModel, task: TaskModel) -> TaskModel {
    if inherits(task, "restart_delay_ms"@) {
        marked(
            TaskModel {
                restart_delay_ms: match defaults.restart_delay_ms {
                    Some(value) => value,
                    None => 500,
                },
                ..task
            },
            "restart_delay_ms"@,
            defaults.restart_delay_ms is Some,
        )
    } else {
        task
    }
}

/// The task with the default restart limit, or none, applied where it inherits it.
pub open spec fn limit_step(defaults: DefaultsModel, task: TaskModel) -> TaskModel {
    if inherits(task, "max_restarts"@) {
        marked(
            TaskModel {
                max_restarts: match defaults.max_restarts {
                    Some(value) => value,
                    None => 0,
                },
                ..task
            },
            "max_restarts"@,
            defaults.max_restarts is Some,
        )
    } else {
        task
    }
}

/// The task with the default count reset window, or a minute, applied where it inherits it.
pub open spec fn reset_step(defaults: DefaultsModel, task: TaskModel) -> TaskModel {
    if inherits(task, "restart_reset_after_ms"@) {
        marked(
            TaskModel {
                restart_reset_after_ms: match defaults.restart_reset_after_ms {
                    Some(value) => value,
                    None => 60_000,
                },
                ..task
            },
            "restart_reset_after_ms"@,
            defaults.restart_reset_after_ms is Some,
        )
    } else {
        task
    }
}

/// The task with the default stop timeout, or five seconds, applied where it inherits it.
pub open spec fn timeout_step(defaults: DefaultsModel, task: TaskModel) -> TaskModel {
    if inherits(task, "shutdown_timeout_ms"@) {
        marked(
            TaskModel {
                shutdown_timeout_ms: match defaults.shutdown_timeout_ms {
                    Some(value) => value,
                    None => 5_000,
                },
                ..task
            },
            "shutdown_timeout_ms"@,
            defaults.shutdown_timeout_ms is Some,
        )
    } else {
        task
    }
}

/// The task with the defaults applied, setting by setting, wherever it inherits: the
/// declared default or else the built-in value, each recorded with its origin.
pub open spec fn defaults_applied(defaults: DefaultsModel, task: TaskModel) -> TaskModel {
    timeout_step(
        defaults,
        reset_step(
            defaults,
            limit_step(
                defaults,
                delay_step(defaults, restart_step(defaults, codes_step(defaults, cwd_step(defaults, task)))),
            ),
        ),
    )
}

/// A copy of an optional text.
fn copy_text(value: &Option<String>) -> (result: Option<String>)
    ensures
        result.deep_view() == value.deep_view(),
{
    match value {
        Some(text) => Some(text.clone()),
        None => None,
    }
}

/// Whether a task takes a setting from the defaults.
fn task_inherits(task: &FormTask, name: &str) -> (result: bool)
    ensures
        result == inherits(task@, name@),
{
    let origin = task.origin(name);
    !(origin == ValueOrigin::Task || origin == ValueOrigin::TaskTemplate || origin == ValueOrigin::Profile)
}

/// Where an inherited setting comes from.
fn origin_for(declared: bool) -> (result: ValueOrigin)
    ensures
        result == inherited_origin(declared),
{
    if declared {
        ValueOrigin::TaskDefaults
    } else {
        ValueOrigin::BuiltIn
    }
}

impl FormTaskDefaults {
    /// Whether the project declares no default at all.
    pub fn is_empty(&self) -> (result: bool)
        ensures
            result == defaults_empty(self@),
    {
        self.cwd.is_none() && self.env.len() == 0 && self.success_exit_codes.is_none()
            && self.restart.is_none() && self.restart_delay_ms.is_none() && self.max_restarts.is_none()
            && self.restart_reset_after_ms.is_none() && self.shutdown_timeout_ms.is_none()
    }

    /// The compact summary shown in the project details.
    pub fn summary(&self) -> (result: String)
        ensures
            result@ == defaults_summary(self@),
    {
        let mut labels: Vec<String> = Vec::new();
        push_label(&mut labels, self.cwd.is_some(), "cwd".to_owned());
        let env_count = self.env.len();
        if env_count > 0 {
            let mut label = "env(".to_owned();
            append_text(&mut label, natural_text(env_count as u64).as_str());
            append_text(&mut label, ")");
            push_label(&mut labels, true, label);
        } else {
            push_label(&mut labels, false, String::new());
        }
        push_label(&mut labels, self.success_exit_codes.is_some(), "成功退出码".to_owned());
        push_label(&mut labels, self.restart.is_some(), "重启策略".to_owned());
        push_label(&mut labels, self.restart_delay_ms.is_some(), "重启等待".to_owned());
        push_label(&mut labels, self.max_restarts.is_some(), "重启上限".to_owned());
        push_label(&mut labels, self.restart_reset_after_ms.is_some(), "计数重置".to_owned());
        push_label(&mut labels, self.shutdown_timeout_ms.is_some(), "停止超时".to_owned());
        assert(labels.deep_view() =~= declared_labels(self@));
        if labels.len() == 0 {
            "未配置".to_owned()
        } else {
            join_texts(&labels, "、")
        }
    }

    /// Appends the `task_defaults` section of the configuration.
    #[verifier::rlimit(60)]
    pub fn append_yaml(&self, text: &mut String)
        ensures
            final(text)@ == old(text)@ + defaults_yaml(self@),
    {
        if self.is_empty() {
            assert(old(text)@ + Seq::<char>::empty() =~= old(text)@);
            return;
        }
        let ghost start = text@;
        append_text(text, "task_defaults:\n");
        let ghost head = text@;
        match &self.cwd {
            Some(cwd) => optional_yaml(text, 2, "cwd", Some(cwd.as_str())),
            None => {},
        }
        let ghost with_cwd = text@;
        assert(with_cwd == head + optional_line(2, "cwd"@, self@.cwd));
        append_env_part(text, &self.env);
        let ghost with_env = text@;
        match &self.success_exit_codes {
            Some(values) => yaml_i32_array(text, 2, "success_exit_codes", values.as_slice()),
            None => {},
        }
        let ghost with_codes = text@;
        assert(with_codes == with_env + codes_part(self@.success_exit_codes));
        match &self.restart {
            Some(restart) => append_plain(text, true, 2, "restart", restart.as_str()),
            None => {},
        }
        let ghost with_restart = text@;
        assert(with_restart == with_codes + restart_part(self@.restart));
        self.append_numbers(text);
        let ghost body = "task_defaults:\n"@ + optional_line(2, "cwd"@, self@.cwd) + env_part(self@.env)
            + codes_part(self@.success_exit_codes) + restart_part(self@.restart) + numbers_part(self@);
        assert(text@ =~= start + body);
    }

    /// Appends the lines of the declared numbers.
    fn append_numbers(&self, text: &mut String)
        ensures
            final(text)@ == old(text)@ + numbers_part(self@),
    {
        let ghost start = text@;
        append_number(text, "restart_delay_ms", self.restart_delay_ms);
        append_number(
            text,
            "max_restarts",
            match self.max_restarts {
                Some(value) => Some(value as u64),
                None => None,
            },
        );
        append_number(text, "restart_reset_after_ms", self.restart_reset_after_ms);
        append_number(text, "shutdown_timeout_ms", self.shutdown_timeout_ms);
        assert(text@ =~= start + numbers_part(self@));
    }

    /// Applies the defaults to every setting of the task that it does not set itself nor get
    /// from a template or the active profile.
    pub fn apply_to(&self, task: &mut FormTask)
        ensures
            final(task)@ == defaults_applied(self@, old(task)@),
    {
        self.apply_cwd(task);
        self.apply_codes(task);
        self.apply_restart(task);
        self.apply_delay(task);
        self.apply_limit(task);
        self.apply_reset(task);
        self.apply_timeout(task);
    }

    fn apply_cwd(&self, task: &mut FormTask)
        ensures
            final(task)@ == cwd_step(self@, old(task)@),
    {
        if task_inherits(task, "cwd") {
            task.cwd = copy_text(&self.cwd);
            task.set_origin("cwd", origin_for(self.cwd.is_some()));
        }
    }

    fn apply_codes(&self, task: &mut FormTask)
        ensures
            final(task)@ == codes_step(self@, old(task)@),
    {
        if task_inherits(task, "success_exit_codes") {
            task.success_exit_codes = match &self.success_exit_codes {
                Some(values) => {
                    let copied = values.clone();
                    assert(copied@ =~= values@);
                    copied
                },
                None => {
                    let built_in = vec![0];
                    assert(built_in@ =~= seq![0i32]);
                    built_in
                },
            };
            task.set_origin("success_exit_codes", origin_for(self.success_exit_codes.is_some()));
        }
    }

    fn apply_restart(&self, task: &mut FormTask)
        ensures
            final(task)@ == restart_step(self@, old(task)@),
    {
        if task_inherits(task, "restart") {
            task.restart = match &self.restart {
                Some(restart) => restart.clone(),
                None => "never".to_owned(),
            };
            task.set_origin("restart", origin_for(self.restart.is_some()));
        }
    }

    fn apply_delay(&self, task: &mut FormTask)
        ensures
            final(task)@ == delay_step(self@, old(task)@),
    {
        if task_inherits(task, "restart_delay_ms") {
            task.restart_delay_ms = match self.restart_delay_ms {
                Some(value) => value,
                None => 500,
            };
            task.set_origin("restart_delay_ms", origin_for(self.restart_delay_ms.is_some()));
        }
    }

    fn apply_limit(&self, task: &mut FormTask)
        ensures
            final(task)@ == limit_step(self@, old(task)@),
    {
        if task_inherits(task, "max_restarts") {
            task.max_restarts = match self.max_restarts {
                Some(value) => value,
                None => 0,
            };
            task.set_origin("max_restarts", origin_for(self.max_restarts.is_some()));
        }
    }

    fn apply_reset(&self, task: &mut FormTask)
        ensures
            final(task)@ == reset_step(self@, old(task)@),
    {
        if task_inherits(task, "restart_reset_after_ms") {
            task.restart_reset_after_ms = match self.restart_reset_after_ms {
                Some(value) => value,
                None => 60_000,
            };
            task.set_origin("restart_reset_after_ms", origin_for(self.restart_reset_after_ms.is_some()));
        }
    }

    fn apply_timeout(&self, task: &mut FormTask)
        ensures
            final(task)@ == timeout_step(self@, old(task)@),
    {
        if task_inherits(task, "shutdown_timeout_ms") {
            task.shutdown_timeout_ms = match self.shutdown_timeout_ms {
                Some(value) => value,
                None => 5_000,
            };
            task.set_origin("shutdown_timeout_ms", origin_for(self.shutdown_timeout_ms.is_some()));
        }
    }
}

/// Appends the environment block, nothing for an empty environment.
fn append_env_part(text: &mut String, env: &Vec<(String, String)>)
    ensures
        final(text)@ == old(text)@ + env_part(pair_entries(env@)),
{
    if env.len() == 0 {
        assert(old(text)@ + Seq::<char>::empty() =~= old(text)@);
        return;
    }
    let ghost start = text@;
    append_text(text, "  env:\n");
    let ghost opened = text@;
    let mut index: usize = 0;
    let ghost all = pair_entries(env@);
    assert(all.take(0) =~= Seq::<(Seq<char>, Seq<char>)>::empty());
    while index < env.len()
        invariant
            index <= env@.len(),
            all == pair_entries(env@),
            text@ == opened + map_lines(4, all.take(index as int)),
        decreases env@.len() - index,
    {
        assert(all.take(index + 1).drop_last() =~= all.take(index as int));
        append_spaces(text, 4);
        append_text(text, quoted(env[index].0.as_str()).as_str());
        append_text(text, ": ");
        append_text(text, quoted(env[index].1.as_str()).as_str());
        append_text(text, "\n");
        index += 1;
        assert(text@ =~= opened + map_lines(4, all.take(index as int)));
    }
    assert(all.take(env@.len() as int) =~= all);
    assert(text@ =~= start + env_part(all));
}

/// Adds a label when its setting is declared.
fn push_label(labels: &mut Vec<String>, declared: bool, label: String)
    ensures
        final(labels).deep_view() == old(labels).deep_view() + label_if(declared, label@),
{
    if declared {
        labels.push(label);
        assert(labels.deep_view() =~= old(labels).deep_view() + seq![label@]);
    } else {
        assert(labels.deep_view() =~= old(labels).deep_view() + Seq::<Seq<char>>::empty());
    }
}

/// Appends a `key: number` line for a number that is there.
fn append_number(text: &mut String, key: &str, value: Option<u64>)
    ensures
        final(text)@ == old(text)@ + number_line(key@, value),
{
    match value {
        Some(value) => {
            append_spaces(text, 2);
            append_text(text, key);
            append_text(text, ": ");
            append_text(text, natural_text(value).as_str());
            append_text(text, "\n");
            assert(text@ =~= old(text)@ + number_line(key@, Some(value)));
        },
        None => {
            assert(old(text)@ + Seq::<char>::empty() =~= old(text)@);
        },
    }
}

/// Law: applying the defaults leaves every setting that the task sets itself, or takes from a
/// template or the active profile, as it was, and keeps where it comes from.
pub proof fn lemma_defaults_keep_declared(defaults: DefaultsModel, task: TaskModel)
    ensures
        ({
            let applied = defaults_applied(defaults, task);
            &&& !inherits(task, "cwd"@) ==> applied.cwd == task.cwd
            &&& !inherits(task, "success_exit_codes"@) ==> applied.success_exit_codes
                == task.success_exit_codes
            &&& !inherits(task, "restart"@) ==> applied.restart == task.restart
            &&& !inherits(task, "restart_delay_ms"@) ==> applied.restart_delay_ms == task.restart_delay_ms
            &&& !inherits(task, "max_restarts"@) ==> applied.max_restarts == task.max_restarts
            &&& !inherits(task, "restart_reset_after_ms"@) ==> applied.restart_reset_after_ms
                == task.restart_reset_after_ms
            &&& !inherits(task, "shutdown_timeout_ms"@) ==> applied.shutdown_timeout_ms
                == task.shutdown_timeout_ms
            &&& forall|name: Seq<char>|
                !inherits(task, name) ==> origin_of(#[trigger] applied.origins, name) == origin_of(
                    task.origins,
                    name,
                )
        }),
{
    reveal_strlit("cwd");
    reveal_strlit("success_exit_codes");
    reveal_strlit("restart");
    reveal_strlit("restart_delay_ms");
    reveal_strlit("max_restarts");
    reveal_strlit("restart_reset_after_ms");
    reveal_strlit("shutdown_timeout_ms");
    assert forall|origins: Seq<(Seq<char>, ValueOrigin)>, name: Seq<char>, origin: ValueOrigin, other: Seq<char>|
        other != name implies #[trigger] origin_of(with_origin(origins, name, origin), other) == origin_of(
            origins,
            other,
        ) by {
        crate::form_task::lemma_with_origin(origins, name, origin, other);
    }
    let step1 = cwd_step(defaults, task);
    let step2 = codes_step(defaults, step1);
    let step3 = restart_step(defaults, step2);
    let step4 = delay_step(defaults, step3);
    let step5 = limit_step(defaults, step4);
    let step6 = reset_step(defaults, step5);
    assert forall|name: Seq<char>| !inherits(task, name) implies origin_of(
        #[trigger] defaults_applied(defaults, task).origins,
        name,
    ) == origin_of(task.origins, name) by {
        assert(origin_of(step1.origins, name) == origin_of(task.origins, name));
        assert(origin_of(step2.origins, name) == origin_of(task.origins, name));
        assert(origin_of(step3.origins, name) == origin_of(task.origins, name));
        assert(origin_of(step4.origins, name) == origin_of(task.origins, name));
        assert(origin_of(step5.origins, name) == origin_of(task.origins, name));
        assert(origin_of(step6.origins, name) == origin_of(task.origins, name));
    }
}

} // verus!
