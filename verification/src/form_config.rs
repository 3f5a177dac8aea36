//! The whole configuration as the structured form holds it, and the YAML it is saved as.
//!
//! What the form keeps only as JSON (profile declarations as saved, task templates, upload
//! targets and the tasks the active profile leaves out) and the durations in the
//! configuration's duration syntax are written by the caller and framed here.

use vstd::prelude::*;

use crate::config_yaml::{
    append_config_head, append_dependencies, append_map_section, append_tasks, append_uploads, config_head,
    dependencies_yaml, map_section, pair_entries, tasks_entries_yaml, uploads_line,
};
use crate::form_dependency::FormDependency;
use crate::form_health::HealthDurationTexts;
use crate::form_profile::ProfileSet;
use crate::form_task::{FormTask, TaskDurationTexts};
use crate::json::{json_quoted, quoted};
use crate::task_defaults::{defaults_yaml, FormTaskDefaults};
use crate::text::append_text;

verus! {

/// The configuration the structured form edits.
pub struct FormConfig {
    /// Format version.
    pub version: u32,
    /// Project name.
    pub project: String,
    /// Project variables, in key order.
    pub vars: Vec<(String, String)>,
    /// Named profiles and the active one.
    pub profiles: ProfileSet,
    /// Project environment, in key order.
    pub env: Vec<(String, String)>,
    /// Project task defaults.
    pub task_defaults: FormTaskDefaults,
    /// Managed dependencies, in name order.
    pub dependencies: Vec<(String, FormDependency)>,
    /// Tasks the active profile admits, in name order.
    pub tasks: Vec<(String, FormTask)>,
}

/// What the YAML of a configuration takes from the caller: the profiles, task templates and
/// project upload targets as compact JSON (nothing where there are none), the tasks the
/// active profile leaves out with their declarations as compact JSON, and, in the same order
/// as the configuration's dependencies and tasks, each dependency's transfer timeout and each
/// task's durations in the configuration's duration syntax.
pub struct ConfigTexts {
    /// The profiles as compact JSON.
    pub profiles: String,
    /// The task templates as compact JSON.
    pub templates: Option<String>,
    /// The project's upload targets as compact JSON.
    pub uploads: Option<String>,
    /// Tasks left out by the active profile, each with its declaration as compact JSON.
    pub inactive_tasks: Vec<(String, String)>,
    /// Transfer timeout of each dependency.
    pub dependency_timeouts: Vec<String>,
    /// Restart and stop durations of each task.
    pub task_durations: Vec<TaskDurationTexts>,
    /// Health check durations of each task.
    pub health_durations: Vec<HealthDurationTexts>,
}

/// A line `key: json`, nothing without a value.
pub open spec fn json_line(key: Seq<char>, json: Option<Seq<char>>) -> Seq<char> {
    match json {
        Some(json) => key + ": "@ + json + "\n"@,
        None => Seq::empty(),
    }
}

/// The lines of tasks left out by the active profile, each its quoted name and declaration.
pub open spec fn inactive_lines(entries: Seq<(String, String)>) -> Seq<char>
    decreases entries.len(),
{
    if entries.len() == 0 {
        Seq::empty()
    } else {
        inactive_lines(entries.drop_last()) + "  "@ + json_quoted(entries.last().0@) + ": "@
            + entries.last().1@ + "\n"@
    }
}

/// The YAML a configuration is saved as: its opening lines, the profiles when there are any,
/// the environment, the task defaults, the task templates, the managed dependencies, the
/// project upload targets, the tasks, and the tasks the active profile leaves out.
pub open spec fn config_yaml(config: FormConfig, texts: ConfigTexts) -> Seq<char> {
    config_head(config.version, config.project@, pair_entries(config.vars@), config.profiles.active.deep_view())
        + json_line("profiles"@, if config.profiles.profiles@.len() > 0 {
        Some(texts.profiles@)
    } else {
        None
    }) + map_section("env"@, pair_entries(config.env@)) + defaults_yaml(config.task_defaults@) + json_line(
        "task_templates"@,
        texts.templates.deep_view(),
    ) + dependencies_yaml(config.dependencies@, texts.dependency_timeouts@) + uploads_line(
        0,
        texts.uploads.deep_view(),
    ) + "tasks:\n"@ + tasks_entries_yaml(config.tasks@, texts.task_durations@, texts.health_durations@)
        + inactive_lines(texts.inactive_tasks@)
}

/// Appends a `key: json` line for a value that is there.
fn append_json_line(text: &mut String, key: &str, json: Option<&String>)
    ensures
        final(text)@ == old(text)@ + json_line(
            key@,
            match json {
                Some(json) => Some(json@),
                None => None,
            },
        ),
{
    match json {
        Some(json) => {
            let ghost start = text@;
            append_text(text, key);
            append_text(text, ": ");
            append_text(text, json.as_str());
            append_text(text, "\n");
            assert(text@ =~= start + json_line(key@, Some(json@)));
        },
        None => {
            assert(old(text)@ + Seq::<char>::empty() =~= old(text)@);
        },
    }
}

/// Appends the lines of the tasks left out by the active profile.
fn append_inactive(text: &mut String, entries: &Vec<(String, String)>)
    ensures
        final(text)@ == old(text)@ + inactive_lines(entries@),
{
    let ghost start = text@;
    let mut index: usize = 0;
    assert(entries@.take(0) =~= Seq::<(String, String)>::empty());
    while index < entries.len()
        invariant
            index <= entries@.len(),
            text@ == start + inactive_lines(entries@.take(index as int)),
        decreases entries@.len() - index,
    {
        assert(entries@.take(index + 1).drop_last() =~= entries@.take(index as int));
        assert(entries@.take(index + 1).last() == entries@[index as int]);
        append_text(text, "  ");
        append_text(text, quoted(entries[index].0.as_str()).as_str());
        append_text(text, ": ");
        append_text(text, entries[index].1.as_str());
        append_text(text, "\n");
        index += 1;
        assert(text@ =~= start + inactive_lines(entries@.take(index as int)));
    }
    assert(entries@.take(entries@.len() as int) =~= entries@);
}

/// The YAML a configuration is saved as.
#[verifier::rlimit(40)]
pub fn yaml(config: &FormConfig, texts: &ConfigTexts) -> (result: String)
    requires
        config.dependencies@.len() == texts.dependency_timeouts@.len(),
        config.tasks@.len() == texts.task_durations@.len(),
        config.tasks@.len() == texts.health_durations@.len(),
    ensures
        result@ == config_yaml(*config, *texts),
{
    let mut text = String::new();
    append_config_head(&mut text, config.version, config.project.as_str(), &config.vars, &config.profiles.active);
    let ghost head = text@;
    let profiles = if config.profiles.profiles.len() > 0 {
        Some(&texts.profiles)
    } else {
        None
    };
    append_json_line(&mut text, "profiles", profiles);
    let ghost with_profiles = text@;
    append_map_section(&mut text, "env", &config.env);
    config.task_defaults.append_yaml(&mut text);
    let ghost with_defaults = text@;
    append_json_line(
        &mut text,
        "task_templates",
        match &texts.templates {
            Some(json) => Some(json),
            None => None,
        },
    );
    append_dependencies(&mut text, &config.dependencies, &texts.dependency_timeouts);
    append_uploads(&mut text, 0, &texts.uploads);
    let ghost with_uploads = text@;
    append_tasks(&mut text, &config.tasks, &texts.task_durations, &texts.health_durations);
    append_inactive(&mut text, &texts.inactive_tasks);
    assert(text@ =~= config_yaml(*config, *texts));
    text
}

} // verus!
