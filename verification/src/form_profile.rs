//! Named profiles as the structured configuration form edits them: the profile dialog's
//! fields, how they are read back, and the project's set of profiles.
//!
//! Durations are held in milliseconds. The dialog takes them already written in the
//! configuration's duration syntax, and reading it back takes what that syntax read from each
//! non-blank duration field.

use vstd::prelude::*;

use crate::form_dialog::{text_field_model, text_or_empty};
use crate::form_field::{choice_field, field, DialogField, DialogFieldKind, FieldModel};
use crate::json::{
    args_text, integers_text, json_integer_array, json_string_array, json_string_object, keys_increasing,
    map_text,
};
use crate::number::{digits_of, natural_text};
use crate::task_defaults::{DefaultsModel, FormTaskDefaults};
use crate::overview_collection::text_order;
use crate::form_health::{field_models, required_read};
use crate::form_task::{duration_override, read_duration, reading_model};
use crate::form_dialog::optional_text;
use crate::form_value::{
    argument_list, integer_list, name_character, optional, parse_args, parse_i32_list, parse_map,
    parse_optional_u32, required_value, table_text_entries, unsigned_message, valid_name,
};
use crate::number::parse_unsigned;
use crate::text::{joined, same_text, trimmed};

verus! {

/// A named profile: the profile it builds on, the tasks it admits, and what it changes of the
/// project's environment and task defaults.
pub struct FormProfile {
    /// Profile this one builds on.
    pub extends: Option<String>,
    /// Tasks admitted; nothing means inherited, or all.
    pub tasks: Option<Vec<String>>,
    /// Environment entries it sets, in key order.
    pub env: Vec<(String, String)>,
    /// Task defaults it sets.
    pub task_defaults: FormTaskDefaults,
}

/// A profile as a mathematical value.
pub ghost struct ProfileModel {
    pub extends: Option<Seq<char>>,
    pub tasks: Option<Seq<Seq<char>>>,
    pub env: Seq<(Seq<char>, Seq<char>)>,
    pub task_defaults: DefaultsModel,
}

impl View for FormProfile {
    type V = ProfileModel;

    open spec fn view(&self) -> ProfileModel {
        ProfileModel {
            extends: self.extends.deep_view(),
            tasks: match self.tasks {
                Some(tasks) => Some(tasks.deep_view()),
                None => None,
            },
            env: self.env@.map_values(|entry: (String, String)| (entry.0@, entry.1@)),
            task_defaults: self.task_defaults@,
        }
    }
}

/// Duration settings of a profile's task defaults in the configuration's duration syntax, for
/// the dialog; each is empty where the profile sets none.
pub struct ProfileDurationTexts {
    /// Wait before a restart.
    pub restart_delay: String,
    /// Restart count reset window.
    pub restart_reset_after: String,
    /// Graceful stop timeout.
    pub shutdown_timeout: String,
}

/// The profile names other than the one being edited, in order.
pub open spec fn other_names(names: Seq<Seq<char>>, original: Option<Seq<char>>) -> Seq<Seq<char>>
    decreases names.len(),
{
    if names.len() == 0 {
        Seq::empty()
    } else {
        let rest = other_names(names.drop_last(), original);
        if original == Some(names.last()) {
            rest
        } else {
            rest.push(names.last())
        }
    }
}

/// Choices of the restart policy a profile's task defaults set.
pub open spec fn default_restart_choices() -> Seq<Seq<char>> {
    seq!["default"@, "never"@, "on-failure"@, "always"@]
}

/// The fields of the profile dialog: its name, the profile it builds on (`none` or another
/// profile), its task list (empty for none, a JSON array otherwise), its environment and its
/// task defaults (empty or `default` where it sets none); `durations` are its restart wait,
/// count reset and stop timeout texts.
pub open spec fn profile_dialog_fields(
    original: Option<Seq<char>>,
    profile: ProfileModel,
    names: Seq<Seq<char>>,
    durations: (Seq<char>, Seq<char>, Seq<char>),
) -> Seq<FieldModel> {
    let defaults = profile.task_defaults;
    let base = match profile.extends {
        Some(base) => base,
        None => "none"@,
    };
    let restart = match defaults.restart {
        Some(restart) => restart,
        None => "default"@,
    };
    seq![
        text_field_model("profile 名称"@, text_or_empty(original)),
        ("继承 profile"@, base, seq!["none"@] + other_names(names, original), base.len() as int, DialogFieldKind::Choice),
        text_field_model("Task 白名单（空=继承/全部，JSON []=无 Task）"@, match profile.tasks {
            Some(tasks) => json_string_array(tasks),
            None => Seq::empty(),
        }),
        text_field_model("环境覆盖（JSON 对象或 KEY=VALUE）"@, json_string_object(profile.env)),
        text_field_model("Task 默认工作目录（可空）"@, text_or_empty(defaults.cwd)),
        text_field_model("Task 默认环境（JSON 对象或 KEY=VALUE）"@, json_string_object(defaults.env)),
        text_field_model("Task 默认成功退出码（可空）"@, match defaults.success_exit_codes {
            Some(codes) => json_integer_array(codes),
            None => Seq::empty(),
        }),
        ("Task 默认重启策略"@, restart, default_restart_choices(), restart.len() as int, DialogFieldKind::Choice),
        text_field_model("Task 默认重启等待（如 750ms/5s，可空）"@, durations.0),
        text_field_model("Task 默认最大重启次数（可空）"@, match defaults.max_restarts {
            Some(count) => digits_of(count as nat),
            None => Seq::empty(),
        }),
        text_field_model("Task 默认计数重置（如 1m，可空）"@, durations.1),
        text_field_model("Task 默认停止超时（如 5s，可空）"@, durations.2),
    ]
}

/// The text of an optional value, empty when there is none.
fn text_of(value: &Option<String>) -> (result: String)
    ensures
        result@ == text_or_empty(value.deep_view()),
{
    match value {
        Some(text) => text.clone(),
        None => String::new(),
    }
}

/// The choices of the base profile: `none`, then every profile but the one being edited.
fn base_choices(names: &Vec<String>, original: Option<&str>) -> (result: Vec<String>)
    ensures
        result.deep_view() == seq!["none"@] + other_names(
            names.deep_view(),
            match original {
                Some(name) => Some(name@),
                None => None,
            },
        ),
{
    let ghost wanted = match original {
        Some(name) => Some(name@),
        None => None,
    };
    let ghost all = names.deep_view();
    let mut result: Vec<String> = Vec::new();
    result.push("none".to_owned());
    assert(all.take(0) =~= Seq::<Seq<char>>::empty());
    assert(result.deep_view() =~= seq!["none"@] + other_names(all.take(0), wanted));
    let mut index: usize = 0;
    while index < names.len()
        invariant
            index <= names@.len(),
            all == names.deep_view(),
            result.deep_view() == seq!["none"@] + other_names(all.take(index as int), wanted),
            wanted == match original {
                Some(name) => Some(name@),
                None => None,
            },
        decreases names@.len() - index,
    {
        assert(all.take(index + 1).drop_last() =~= all.take(index as int));
        assert(all.take(index + 1).last() == names[index as int]@);
        let skip = match original {
            Some(name) => same_text(&names[index], &name.to_owned()),
            None => false,
        };
        if !skip {
            let ghost before = result.deep_view();
            result.push(names[index].clone());
            assert(result.deep_view() =~= before.push(names[index as int]@));
        }
        index += 1;
    }
    assert(all.take(names@.len() as int) =~= all);
    result
}

/// The fields of the dialog editing a profile, or creating one when `original` is nothing;
/// `names` are the project's profile names in order, and `durations` the profile's restart
/// wait, count reset and stop timeout in the configuration's duration syntax.
#[verifier::rlimit(60)]
pub fn profile_fields(
    original: Option<&str>,
    profile: &FormProfile,
    names: &Vec<String>,
    durations: &ProfileDurationTexts,
) -> (result: Vec<DialogField>)
    requires
        keys_increasing(profile@.env),
        keys_increasing(profile@.task_defaults.env),
    ensures
        result.deep_view() == profile_dialog_fields(
            match original {
                Some(name) => Some(name@),
                None => None,
            },
            profile@,
            names.deep_view(),
            (durations.restart_delay@, durations.restart_reset_after@, durations.shutdown_timeout@),
        ),
{
    let empty: [&str; 0] = [];
    assert(empty@.map_values(|choice: &str| choice@) =~= Seq::<Seq<char>>::empty());
    let policies: [&str; 4] = ["default", "never", "on-failure", "always"];
    assert(policies@.map_values(|choice: &str| choice@) =~= default_restart_choices());
    let name = match original {
        Some(name) => name.to_owned(),
        None => String::new(),
    };
    let base = match &profile.extends {
        Some(base) => base.clone(),
        None => "none".to_owned(),
    };
    let tasks = match &profile.tasks {
        Some(tasks) => {
            assert(tasks@.map_values(|value: String| value@) =~= tasks.deep_view());
            args_text(tasks.as_slice())
        },
        None => String::new(),
    };
    let env = map_text(profile.env.as_slice());
    let defaults = &profile.task_defaults;
    assert(defaults.env@.map_values(|entry: (String, String)| (entry.0@, entry.1@)) == defaults@.env);
    let cwd = text_of(&defaults.cwd);
    let defaults_env = map_text(defaults.env.as_slice());
    let codes = match &defaults.success_exit_codes {
        Some(codes) => integers_text(codes.as_slice()),
        None => String::new(),
    };
    let restart = match &defaults.restart {
        Some(restart) => restart.clone(),
        None => "default".to_owned(),
    };
    let restarts = match defaults.max_restarts {
        Some(count) => natural_text(count as u64),
        None => String::new(),
    };
    let mut fields: Vec<DialogField> = Vec::new();
    fields.push(field("profile 名称", name.as_str(), &empty));
    fields.push(choice_field("继承 profile", base.as_str(), base_choices(names, original)));
    fields.push(field("Task 白名单（空=继承/全部，JSON []=无 Task）", tasks.as_str(), &empty));
    fields.push(field("环境覆盖（JSON 对象或 KEY=VALUE）", env.as_str(), &empty));
    fields.push(field("Task 默认工作目录（可空）", cwd.as_str(), &empty));
    fields.push(field("Task 默认环境（JSON 对象或 KEY=VALUE）", defaults_env.as_str(), &empty));
    fields.push(field("Task 默认成功退出码（可空）", codes.as_str(), &empty));
    fields.push(field("Task 默认重启策略", restart.as_str(), &policies));
    fields.push(field("Task 默认重启等待（如 750ms/5s，可空）", durations.restart_delay.as_str(), &empty));
    fields.push(field("Task 默认最大重启次数（可空）", restarts.as_str(), &empty));
    fields.push(field("Task 默认计数重置（如 1m，可空）", durations.restart_reset_after.as_str(), &empty));
    fields.push(field("Task 默认停止超时（如 5s，可空）", durations.shutdown_timeout.as_str(), &empty));
    let ghost expected = profile_dialog_fields(
        match original {
            Some(name) => Some(name@),
            None => None,
        },
        profile@,
        names.deep_view(),
        (durations.restart_delay@, durations.restart_reset_after@, durations.shutdown_timeout@),
    );
    proof {
        reveal_strlit("none");
        reveal_strlit("default");
    }
    assert(fields.deep_view()[1] == expected[1]);
    assert(fields.deep_view()[7] == expected[7]);
    assert(fields.deep_view() =~= expected);
    fields
}

/// The profiles of a project, in name order, and the active one.
pub struct ProfileSet {
    /// Profiles by name, names strictly increasing.
    pub profiles: Vec<(String, FormProfile)>,
    /// Name of the active profile; nothing for the base configuration.
    pub active: Option<String>,
}

/// A set of profiles as a mathematical value.
pub ghost struct ProfileSetModel {
    pub profiles: Seq<(Seq<char>, ProfileModel)>,
    pub active: Option<Seq<char>>,
}

impl View for ProfileSet {
    type V = ProfileSetModel;

    open spec fn view(&self) -> ProfileSetModel {
        ProfileSetModel {
            profiles: self.profiles@.map_values(|entry: (String, FormProfile)| (entry.0@, entry.1@)),
            active: self.active.deep_view(),
        }
    }
}

/// The names of profile entries, in order.
pub open spec fn names_of(entries: Seq<(Seq<char>, ProfileModel)>) -> Seq<Seq<char>> {
    entries.map_values(|entry: (Seq<char>, ProfileModel)| entry.0)
}

/// Texts in strictly increasing code point order.
pub open spec fn texts_ordered(texts: Seq<Seq<char>>) -> bool {
    forall|left: int, right: int|
        0 <= left < right < texts.len() ==> text_order(#[trigger] texts[left], #[trigger] texts[right]) < 0
}

/// Position of the first text at or after `start` that does not come before `name`; the
/// length when there is none.
pub open spec fn first_not_below(texts: Seq<Seq<char>>, name: Seq<char>, start: int) -> int
    decreases texts.len() - start,
{
    if start < 0 || start >= texts.len() {
        texts.len() as int
    } else if text_order(texts[start], name) < 0 {
        first_not_below(texts, name, start + 1)
    } else {
        start
    }
}

/// Texts with `name` put at its place in code point order.
pub open spec fn ordered_insert(texts: Seq<Seq<char>>, name: Seq<char>) -> Seq<Seq<char>> {
    texts.insert(first_not_below(texts, name, 0), name)
}

/// The entries without the one named `name`.
pub open spec fn without(entries: Seq<(Seq<char>, ProfileModel)>, name: Seq<char>) -> Seq<
    (Seq<char>, ProfileModel),
>
    decreases entries.len(),
{
    if entries.len() == 0 {
        Seq::empty()
    } else {
        let rest = without(entries.drop_last(), name);
        if entries.last().0 == name {
            rest
        } else {
            rest.push(entries.last())
        }
    }
}

/// A profile that built on `original` now building on `name`.
pub open spec fn rebased(profile: ProfileModel, original: Seq<char>, name: Seq<char>) -> ProfileModel {
    if profile.extends == Some(original) {
        ProfileModel { extends: Some(name), ..profile }
    } else {
        profile
    }
}

/// The entries with every reference to `original` renamed to `name`.
pub open spec fn renamed(entries: Seq<(Seq<char>, ProfileModel)>, original: Seq<char>, name: Seq<char>) -> Seq<
    (Seq<char>, ProfileModel),
> {
    entries.map_values(|entry: (Seq<char>, ProfileModel)| (entry.0, rebased(entry.1, original, name)))
}

/// The entries with `profile` under `name`: the entry of that name replaced, or a new one at
/// its place in name order.
pub open spec fn put(entries: Seq<(Seq<char>, ProfileModel)>, name: Seq<char>, profile: ProfileModel) -> Seq<
    (Seq<char>, ProfileModel),
> {
    if names_of(entries).contains(name) {
        entries.update(names_of(entries).index_of(name), (name, profile))
    } else {
        entries.insert(first_not_below(names_of(entries), name, 0), (name, profile))
    }
}

/// The profiles after storing `profile` under `name`; when it replaces the profile
/// `original`, that one goes, and every profile building on it and the active choice follow
/// the new name.
pub open spec fn replaced(
    set: ProfileSetModel,
    original: Option<Seq<char>>,
    name: Seq<char>,
    profile: ProfileModel,
) -> ProfileSetModel {
    match original {
        Some(original) => ProfileSetModel {
            profiles: put(renamed(without(set.profiles, original), original, name), name, profile),
            active: if set.active == Some(original) {
                Some(name)
            } else {
                set.active
            },
        },
        None => ProfileSetModel { profiles: put(set.profiles, name, profile), active: set.active },
    }
}

/// Lemma: every entry left by removing a name was an entry before, in the same order.
proof fn lemma_without_ordered(entries: Seq<(Seq<char>, ProfileModel)>, name: Seq<char>)
    requires
        texts_ordered(names_of(entries)),
    ensures
        texts_ordered(names_of(without(entries, name))),
        forall|index: int|
            0 <= index < without(entries, name).len() ==> names_of(entries).contains(
                #[trigger] without(entries, name)[index].0,
            ) && without(entries, name)[index].0 != name,
        !names_of(without(entries, name)).contains(name),
    decreases entries.len(),
{
    if entries.len() > 0 {
        let front = entries.drop_last();
        assert(texts_ordered(names_of(front))) by {
            assert forall|left: int, right: int| 0 <= left < right < names_of(front).len() implies text_order(
                #[trigger] names_of(front)[left],
                #[trigger] names_of(front)[right],
            ) < 0 by {
                assert(names_of(front)[left] == names_of(entries)[left]);
                assert(names_of(front)[right] == names_of(entries)[right]);
            }
        }
        lemma_without_ordered(front, name);
        let rest = without(front, name);
        assert forall|index: int| 0 <= index < rest.len() implies names_of(entries).contains(#[trigger] rest[index].0)
            by {
            let found = choose|position: int| 0 <= position < names_of(front).len() && names_of(front)[position] == rest[index].0;
            assert(names_of(entries)[found] == names_of(front)[found]);
        }
        if entries.last().0 != name {
            let last = entries.last();
            let result = rest.push(last);
            assert(names_of(entries)[entries.len() - 1] == last.0);
            assert forall|left: int, right: int| 0 <= left < right < names_of(result).len() implies text_order(
                #[trigger] names_of(result)[left],
                #[trigger] names_of(result)[right],
            ) < 0 by {
                if right == result.len() - 1 {
                    assert(names_of(result)[left] == rest[left].0);
                    assert(names_of(front).contains(rest[left].0));
                    let found = choose|position: int| 0 <= position < names_of(front).len() && names_of(front)[position] == rest[left].0;
                    assert(names_of(entries)[found] == names_of(front)[found]);
                } else {
                    assert(names_of(result)[left] == names_of(rest)[left]);
                    assert(names_of(result)[right] == names_of(rest)[right]);
                }
            }
            assert forall|index: int| 0 <= index < result.len() implies names_of(entries).contains(
                #[trigger] result[index].0,
            ) && result[index].0 != name by {
                if index < rest.len() {
                    assert(result[index] == rest[index]);
                }
            }
            if names_of(result).contains(name) {
                let found = choose|position: int| 0 <= position < names_of(result).len() && names_of(result)[position] == name;
                if found < rest.len() {
                    assert(names_of(rest)[found] == name);
                }
            }
        }
    }
}

/// Lemma: putting a name at its place keeps the names strictly increasing.
proof fn lemma_ordered_slot(texts: Seq<Seq<char>>, name: Seq<char>, start: int)
    requires
        texts_ordered(texts),
        !texts.contains(name),
        0 <= start <= texts.len(),
        forall|index: int| 0 <= index < start ==> text_order(#[trigger] texts[index], name) < 0,
    ensures
        start <= first_not_below(texts, name, start) <= texts.len(),
        forall|index: int|
            0 <= index < first_not_below(texts, name, start) ==> text_order(#[trigger] texts[index], name) < 0,
        forall|index: int|
            first_not_below(texts, name, start) <= index < texts.len() ==> text_order(
                name,
                #[trigger] texts[index],
            ) < 0,
    decreases texts.len() - start,
{
    if start < texts.len() {
        if text_order(texts[start], name) < 0 {
            lemma_ordered_slot(texts, name, start + 1);
        } else {
            crate::overview_collection::lemma_text_order_antisymmetric(texts[start], name);
            if text_order(texts[start], name) == 0 {
                crate::overview_collection::lemma_text_order_equal(texts[start], name);
            }
            assert forall|index: int| start <= index < texts.len() implies text_order(name, #[trigger] texts[index]) < 0
                by {
                if index > start {
                    crate::overview_collection::lemma_text_order_transitive(name, texts[start], texts[index]);
                }
            }
        }
    }
}

/// Lemma: a new name inserted at its place keeps the names strictly increasing.
proof fn lemma_ordered_insert(texts: Seq<Seq<char>>, name: Seq<char>)
    requires
        texts_ordered(texts),
        !texts.contains(name),
    ensures
        texts_ordered(ordered_insert(texts, name)),
        0 <= first_not_below(texts, name, 0) <= texts.len(),
{
    lemma_ordered_slot(texts, name, 0);
    let position = first_not_below(texts, name, 0);
    let result = ordered_insert(texts, name);
    assert forall|left: int, right: int| 0 <= left < right < result.len() implies text_order(
        #[trigger] result[left],
        #[trigger] result[right],
    ) < 0 by {
        if right < position {
        } else if right == position {
        } else if left < position {
            assert(result[right] == texts[right - 1]);
            crate::overview_collection::lemma_text_order_transitive(texts[left], name, texts[right - 1]);
        } else if left == position {
            assert(result[right] == texts[right - 1]);
        } else {
            assert(result[left] == texts[left - 1]);
            assert(result[right] == texts[right - 1]);
        }
    }
}

/// A profile building on `name` where it built on `original`.
fn rebase(profile: FormProfile, original: &str, name: &String) -> (result: FormProfile)
    ensures
        result@ == rebased(profile@, original@, name@),
{
    let FormProfile { extends, tasks, env, task_defaults } = profile;
    let moved = match &extends {
        Some(base) => same_text(base, &original.to_owned()),
        None => false,
    };
    let extends = if moved {
        Some(name.clone())
    } else {
        extends
    };
    FormProfile { extends, tasks, env, task_defaults }
}

/// Lemma: strictly increasing names hold no name twice.
proof fn lemma_ordered_distinct(texts: Seq<Seq<char>>, left: int, right: int)
    requires
        texts_ordered(texts),
        0 <= left < texts.len(),
        0 <= right < texts.len(),
        texts[left] == texts[right],
    ensures
        left == right,
{
    if left != right {
        crate::overview_collection::lemma_text_order_antisymmetric(texts[left], texts[right]);
        if left < right {
            assert(text_order(texts[left], texts[right]) < 0);
        } else {
            assert(text_order(texts[right], texts[left]) < 0);
        }
    }
}

impl ProfileSet {
    /// The profile names, in order.
    pub fn names(&self) -> (result: Vec<String>)
        ensures
            result.deep_view() == names_of(self@.profiles),
    {
        let mut result: Vec<String> = Vec::new();
        let mut index: usize = 0;
        while index < self.profiles.len()
            invariant
                index <= self.profiles@.len(),
                result.deep_view() == names_of(self@.profiles).take(index as int),
            decreases self.profiles@.len() - index,
        {
            assert(names_of(self@.profiles)[index as int] == self.profiles@[index as int].0@);
            let ghost before = result.deep_view();
            let name = self.profiles[index].0.clone();
            result.push(name);
            assert(result.deep_view() =~= before.push(name@));
            assert(result.deep_view() =~= names_of(self@.profiles).take(index + 1));
            index += 1;
        }
        assert(names_of(self@.profiles).take(self.profiles@.len() as int) =~= names_of(self@.profiles));
        result
    }

    /// Position of the profile named `name`, when there is one.
    fn position(&self, name: &str) -> (result: Option<usize>)
        requires
            texts_ordered(names_of(self@.profiles)),
        ensures
            match result {
                Some(index) => index < self@.profiles.len() && names_of(self@.profiles).contains(name@)
                    && index == names_of(self@.profiles).index_of(name@),
                None => !names_of(self@.profiles).contains(name@),
            },
    {
        let target = name.to_owned();
        let mut index: usize = 0;
        while index < self.profiles.len()
            invariant
                index <= self.profiles@.len(),
                target@ == name@,
                texts_ordered(names_of(self@.profiles)),
                forall|earlier: int| 0 <= earlier < index ==> #[trigger] names_of(self@.profiles)[earlier] != name@,
            decreases self.profiles@.len() - index,
        {
            if same_text(&self.profiles[index].0, &target) {
                let ghost names = names_of(self@.profiles);
                assert(names[index as int] == name@);
                assert(names.contains(name@));
                proof {
                    lemma_ordered_distinct(names, index as int, names.index_of(name@));
                }
                return Some(index);
            }
            index += 1;
        }
        None
    }

    /// Whether a profile has the name.
    pub fn has_profile(&self, name: &str) -> (result: bool)
        requires
            texts_ordered(names_of(self@.profiles)),
        ensures
            result == names_of(self@.profiles).contains(name@),
    {
        self.position(name).is_some()
    }

    /// Stores `profile` under `name`; when it replaces the profile `original`, that one goes,
    /// and every profile building on it and the active choice follow the new name.
    #[verifier::rlimit(40)]
    pub fn replace_profile(&mut self, original: Option<&str>, name: String, profile: FormProfile)
        requires
            texts_ordered(names_of(old(self)@.profiles)),
        ensures
            final(self)@ == replaced(
                old(self)@,
                match original {
                    Some(original) => Some(original@),
                    None => None,
                },
                name@,
                profile@,
            ),
            texts_ordered(names_of(final(self)@.profiles)),
    {
        let ghost start = self@;
        if let Some(original) = original {
            let ghost entries = start.profiles;
            let mut remaining: Vec<(String, FormProfile)> = Vec::new();
            std::mem::swap(&mut remaining, &mut self.profiles);
            let ghost view_of = |entry: (String, FormProfile)| (entry.0@, entry.1@);
            assert(remaining@.map_values(view_of) =~= entries.skip(0));
            assert(entries.take(0) =~= Seq::<(Seq<char>, ProfileModel)>::empty());
            let target = original.to_owned();
            while remaining.len() > 0
                invariant
                    remaining@.len() <= entries.len(),
                    remaining@.map_values(view_of) == entries.skip(entries.len() - remaining@.len()),
                    self.profiles@.map_values(view_of) == renamed(
                        without(entries.take(entries.len() - remaining@.len()), original@),
                        original@,
                        name@,
                    ),
                    target@ == original@,
                    self.active.deep_view() == start.active,
                    view_of == (|entry: (String, FormProfile)| (entry.0@, entry.1@)),
                decreases remaining@.len(),
            {
                let ghost done = entries.len() - remaining@.len();
                let ghost before = self.profiles@.map_values(view_of);
                assert(remaining@.map_values(view_of)[0] == entries[done]);
                let ghost old_remaining = remaining@;
                let (key, item) = remaining.remove(0);
                assert(remaining@ =~= old_remaining.subrange(1, old_remaining.len() as int));
                assert forall|position: int| 0 <= position < remaining@.len() implies #[trigger] remaining@.map_values(
                    view_of,
                )[position] == entries.skip(done + 1)[position] by {
                    assert(old_remaining.map_values(view_of)[position + 1] == entries.skip(done)[position + 1]);
                }
                assert(remaining@.map_values(view_of) =~= entries.skip(done + 1));
                assert(entries.take(done + 1).drop_last() =~= entries.take(done));
                assert(entries.take(done + 1).last() == entries[done]);
                if !same_text(&key, &target) {
                    let item = rebase(item, original, &name);
                    self.profiles.push((key, item));
                    assert(self.profiles@.map_values(view_of) =~= before.push(
                        (entries[done].0, rebased(entries[done].1, original@, name@)),
                    ));
                }
                assert(self.profiles@.map_values(view_of) =~= renamed(
                    without(entries.take(done + 1), original@),
                    original@,
                    name@,
                ));
            }
            assert(entries.take(entries.len() as int) =~= entries);
            assert(self@.profiles == self.profiles@.map_values(view_of));
            proof {
                lemma_without_ordered(entries, original@);
                let kept = without(entries, original@);
                assert(names_of(renamed(kept, original@, name@)) =~= names_of(kept));
            }
            let moved = match &self.active {
                Some(active) => same_text(active, &target),
                None => false,
            };
            if moved {
                self.active = Some(name.clone());
            }
        }
        let ghost middle = self@.profiles;
        assert(texts_ordered(names_of(middle)));
        match self.position(name.as_str()) {
            Some(index) => {
                self.profiles.set(index, (name, profile));
                assert(self@.profiles =~= put(middle, names_of(middle)[index as int], profile@));
                assert(names_of(self@.profiles) =~= names_of(middle));
            },
            None => {
                let slot = self.slot(name.as_str());
                proof {
                    lemma_ordered_insert(names_of(middle), name@);
                }
                let ghost inserted = name@;
                self.profiles.insert(slot, (name, profile));
                assert(self@.profiles =~= middle.insert(slot as int, (inserted, profile@)));
                assert(names_of(self@.profiles) =~= ordered_insert(names_of(middle), inserted));
            },
        }
    }

    /// Place of a new name in name order.
    fn slot(&self, name: &str) -> (result: usize)
        ensures
            result == first_not_below(names_of(self@.profiles), name@, 0),
    {
        let characters = crate::text::chars_of(name);
        let ghost names = names_of(self@.profiles);
        let mut index: usize = 0;
        while index < self.profiles.len()
            invariant
                index <= self.profiles@.len(),
                names == names_of(self@.profiles),
                characters@ == name@,
                first_not_below(names, name@, 0) == first_not_below(names, name@, index as int),
            decreases self.profiles@.len() - index,
        {
            let key = crate::text::chars_of(self.profiles[index].0.as_str());
            assert(names[index as int] == self.profiles@[index as int].0@);
            if crate::overview_collection::text_rank(key.as_slice(), characters.as_slice()) >= 0 {
                return index;
            }
            index += 1;
        }
        index
    }
}

/// The name a base stands for while following a chain of bases: the profile being renamed
/// counts under its new name.
pub open spec fn normalized(candidate: Seq<char>, original: Option<Seq<char>>, name: Seq<char>) -> Seq<char> {
    if original == Some(candidate) {
        name
    } else {
        candidate
    }
}

/// The base of the profile named `candidate`, when there is such a profile and it has one.
pub open spec fn base_of(entries: Seq<(Seq<char>, ProfileModel)>, candidate: Seq<char>) -> Option<Seq<char>> {
    if names_of(entries).contains(candidate) {
        entries[names_of(entries).index_of(candidate)].1.extends
    } else {
        None
    }
}

/// How many profiles stand for a name not yet seen.
pub open spec fn unseen(
    entries: Seq<(Seq<char>, ProfileModel)>,
    original: Option<Seq<char>>,
    name: Seq<char>,
    seen: Seq<Seq<char>>,
) -> nat
    decreases entries.len(),
{
    if entries.len() == 0 {
        0
    } else {
        unseen(entries.drop_last(), original, name, seen) + if seen.contains(
            normalized(entries.last().0, original, name),
        ) {
            0nat
        } else {
            1nat
        }
    }
}

/// Lemma: a name inserted into a list is in it, and so is everything that was.
pub proof fn lemma_insert_contains(texts: Seq<Seq<char>>, position: int, text: Seq<char>, other: Seq<char>)
    requires
        0 <= position <= texts.len(),
    ensures
        texts.insert(position, text).contains(other) == (texts.contains(other) || other == text),
{
    let result = texts.insert(position, text);
    if texts.contains(other) {
        let found = choose|index: int| 0 <= index < texts.len() && texts[index] == other;
        if found < position {
            assert(result[found] == other);
        } else {
            assert(result[found + 1] == other);
        }
    }
    if other == text {
        assert(result[position] == text);
    }
    if result.contains(other) {
        let found = choose|index: int| 0 <= index < result.len() && result[index] == other;
        if found < position {
            assert(texts[found] == other);
        } else if found > position {
            assert(texts[found - 1] == other);
        }
    }
}

/// Lemma: seeing one more name never raises the count of unseen ones, and lowers it when a
/// profile stands for that name.
pub proof fn lemma_unseen_decreases(
    entries: Seq<(Seq<char>, ProfileModel)>,
    original: Option<Seq<char>>,
    name: Seq<char>,
    seen: Seq<Seq<char>>,
    candidate: Seq<char>,
)
    requires
        !seen.contains(normalized(candidate, original, name)),
    ensures
        unseen(entries, original, name, ordered_insert(seen, normalized(candidate, original, name))) <= unseen(
            entries,
            original,
            name,
            seen,
        ),
        names_of(entries).contains(candidate) ==> unseen(
            entries,
            original,
            name,
            ordered_insert(seen, normalized(candidate, original, name)),
        ) < unseen(entries, original, name, seen),
    decreases entries.len(),
{
    let inserted = normalized(candidate, original, name);
    let position = first_not_below(seen, inserted, 0);
    lemma_first_not_below_bounds(seen, inserted, 0);
    if entries.len() > 0 {
        let front = entries.drop_last();
        lemma_unseen_decreases(front, original, name, seen, candidate);
        let last = normalized(entries.last().0, original, name);
        lemma_insert_contains(seen, position, inserted, last);
        if names_of(entries).contains(candidate) && entries.last().0 != candidate {
            let found = choose|index: int| 0 <= index < names_of(entries).len() && names_of(entries)[index] == candidate;
            assert(names_of(front)[found] == candidate);
        }
    }
}

/// Lemma: the place of a name lies within the list.
pub proof fn lemma_first_not_below_bounds(texts: Seq<Seq<char>>, name: Seq<char>, start: int)
    requires
        0 <= start,
    ensures
        0 <= first_not_below(texts, name, start) <= texts.len(),
    decreases texts.len() - start,
{
    if start < texts.len() && text_order(texts[start], name) < 0 {
        lemma_first_not_below_bounds(texts, name, start + 1);
    }
}

/// Message for bases that lead back to a profile: the names met, in code point order.
pub open spec fn cycle_message(seen: Seq<Seq<char>>) -> Seq<char> {
    "profile 继承形成循环："@ + joined(seen, " -> "@)
}

/// Following the bases from `current`, with the names in `seen` already met: an error when a
/// name comes round again, else fine once a base names no profile.
pub open spec fn inheritance_check(
    entries: Seq<(Seq<char>, ProfileModel)>,
    original: Option<Seq<char>>,
    name: Seq<char>,
    current: Option<Seq<char>>,
    seen: Seq<Seq<char>>,
) -> Result<(), Seq<char>>
    decreases unseen(entries, original, name, seen),
{
    match current {
        None => Ok(()),
        Some(candidate) => {
            let inserted = normalized(candidate, original, name);
            if seen.contains(inserted) {
                Err(cycle_message(seen))
            } else if !names_of(entries).contains(candidate) {
                Ok(())
            } else {
                proof {
                    lemma_unseen_decreases(entries, original, name, seen, candidate);
                }
                inheritance_check(
                    entries,
                    original,
                    name,
                    base_of(entries, candidate),
                    ordered_insert(seen, inserted),
                )
            }
        },
    }
}

/// Whether a list of texts holds a text.
fn holds(texts: &Vec<String>, text: &String) -> (result: bool)
    ensures
        result == texts.deep_view().contains(text@),
{
    let mut index: usize = 0;
    while index < texts.len()
        invariant
            index <= texts@.len(),
            forall|earlier: int| 0 <= earlier < index ==> #[trigger] texts.deep_view()[earlier] != text@,
        decreases texts@.len() - index,
    {
        if same_text(&texts[index], text) {
            assert(texts.deep_view()[index as int] == text@);
            return true;
        }
        index += 1;
    }
    false
}

/// Place of a text in code point order among texts.
fn text_slot(texts: &Vec<String>, text: &String) -> (result: usize)
    ensures
        result == first_not_below(texts.deep_view(), text@, 0),
{
    let characters = crate::text::chars_of(text.as_str());
    let ghost all = texts.deep_view();
    let mut index: usize = 0;
    while index < texts.len()
        invariant
            index <= texts@.len(),
            all == texts.deep_view(),
            characters@ == text@,
            first_not_below(all, text@, 0) == first_not_below(all, text@, index as int),
        decreases texts@.len() - index,
    {
        let key = crate::text::chars_of(texts[index].as_str());
        if crate::overview_collection::text_rank(key.as_slice(), characters.as_slice()) >= 0 {
            return index;
        }
        index += 1;
    }
    index
}

/// Checks that following the bases from `base` never comes back to a profile met before; the
/// profile `original` counts as `name`.
fn check_inheritance(set: &ProfileSet, original: Option<&str>, name: &String, base: &Option<String>) -> (result:
    Result<(), String>)
    requires
        texts_ordered(names_of(set@.profiles)),
    ensures
        match inheritance_check(
            set@.profiles,
            match original {
                Some(original) => Some(original@),
                None => None,
            },
            name@,
            base.deep_view(),
            seq![name@],
        ) {
            Ok(()) => result is Ok,
            Err(expected) => result matches Err(message) && message@ == expected,
        },
{
    let ghost entries = set@.profiles;
    let ghost wanted = match original {
        Some(original) => Some(original@),
        None => None,
    };
    let mut seen: Vec<String> = Vec::new();
    seen.push(name.clone());
    assert(seen.deep_view() =~= seq![name@]);
    let mut current: Option<String> = match base {
        Some(base) => Some(base.clone()),
        None => None,
    };
    loop
        invariant
            texts_ordered(names_of(set@.profiles)),
            entries == set@.profiles,
            wanted == match original {
                Some(original) => Some(original@),
                None => None,
            },
            inheritance_check(entries, wanted, name@, base.deep_view(), seq![name@]) == inheritance_check(
                entries,
                wanted,
                name@,
                current.deep_view(),
                seen.deep_view(),
            ),
        decreases unseen(entries, wanted, name@, seen.deep_view()),
    {
        let candidate = match current {
            None => return Ok(()),
            Some(candidate) => candidate,
        };
        let renamed_here = match original {
            Some(original) => same_text(&candidate, &original.to_owned()),
            None => false,
        };
        let inserted = if renamed_here {
            name.clone()
        } else {
            candidate.clone()
        };
        assert(inserted@ == normalized(candidate@, wanted, name@));
        if holds(&seen, &inserted) {
            let mut message = "profile 继承形成循环：".to_owned();
            crate::text::append_text(&mut message, crate::directory_picker::join_texts(&seen, " -> ").as_str());
            return Err(message);
        }
        match set.position(candidate.as_str()) {
            None => return Ok(()),
            Some(index) => {
                proof {
                    lemma_unseen_decreases(entries, wanted, name@, seen.deep_view(), candidate@);
                }
                let place = text_slot(&seen, &inserted);
                proof {
                    lemma_first_not_below_bounds(seen.deep_view(), inserted@, 0);
                }
                let ghost before = seen.deep_view();
                let ghost text = inserted@;
                seen.insert(place, inserted);
                assert(seen.deep_view() =~= before.insert(place as int, text));
                assert(set.profiles@[index as int].1@ == entries[index as int].1);
                current = match &set.profiles[index].1.extends {
                    Some(next) => Some(next.clone()),
                    None => None,
                };
            },
        }
    }
}

/// Message for a task admitted twice.
pub open spec fn repeated_task_message(task: Seq<char>) -> Seq<char> {
    "Task `"@ + task + "` 在白名单中重复出现"@
}

/// Message for a task that is not declared.
pub open spec fn unknown_task_message(task: Seq<char>) -> Seq<char> {
    "Task 白名单引用了不存在的 Task `"@ + task + "`"@
}

/// The first problem of a task list, in order: a task named twice, or one that is not
/// declared.
pub open spec fn tasks_problem(tasks: Seq<Seq<char>>, declared: Seq<Seq<char>>) -> Option<Seq<char>>
    decreases tasks.len(),
{
    if tasks.len() == 0 {
        None
    } else {
        match tasks_problem(tasks.drop_last(), declared) {
            Some(message) => Some(message),
            None => if tasks.drop_last().contains(tasks.last()) {
                Some(repeated_task_message(tasks.last()))
            } else if !declared.contains(tasks.last()) {
                Some(unknown_task_message(tasks.last()))
            } else {
                None
            },
        }
    }
}

/// Checks a task list: no task twice, and each declared.
fn check_tasks(tasks: &Vec<String>, declared: &Vec<String>) -> (result: Result<(), String>)
    ensures
        match tasks_problem(tasks.deep_view(), declared.deep_view()) {
            None => result is Ok,
            Some(expected) => result matches Err(message) && message@ == expected,
        },
{
    let ghost all = tasks.deep_view();
    let mut seen: Vec<String> = Vec::new();
    let mut index: usize = 0;
    assert(all.take(0) =~= Seq::<Seq<char>>::empty());
    while index < tasks.len()
        invariant
            index <= tasks@.len(),
            all == tasks.deep_view(),
            seen.deep_view() == all.take(index as int),
            tasks_problem(all.take(index as int), declared.deep_view()) is None,
        decreases tasks@.len() - index,
    {
        let task = &tasks[index];
        assert(all.take(index + 1).drop_last() =~= all.take(index as int));
        assert(all.take(index + 1).last() == task@);
        if holds(&seen, task) {
            let mut message = "Task `".to_owned();
            crate::text::append_text(&mut message, task.as_str());
            crate::text::append_text(&mut message, "` 在白名单中重复出现");
            proof {
                lemma_tasks_problem_stays(all, declared.deep_view(), index + 1);
            }
            return Err(message);
        }
        if !holds(declared, task) {
            let mut message = "Task 白名单引用了不存在的 Task `".to_owned();
            crate::text::append_text(&mut message, task.as_str());
            crate::text::append_text(&mut message, "`");
            proof {
                lemma_tasks_problem_stays(all, declared.deep_view(), index + 1);
            }
            return Err(message);
        }
        let ghost before = seen.deep_view();
        let copy = task.clone();
        seen.push(copy);
        assert(seen.deep_view() =~= before.push(task@));
        index += 1;
        assert(seen.deep_view() =~= all.take(index as int));
    }
    assert(all.take(tasks@.len() as int) =~= all);
    Ok(())
}

/// Lemma: a problem found among the first tasks is the problem of the whole list.
proof fn lemma_tasks_problem_stays(tasks: Seq<Seq<char>>, declared: Seq<Seq<char>>, count: int)
    requires
        0 <= count <= tasks.len(),
        tasks_problem(tasks.take(count), declared) is Some,
    ensures
        tasks_problem(tasks, declared) == tasks_problem(tasks.take(count), declared),
    decreases tasks.len() - count,
{
    if count < tasks.len() {
        assert(tasks.take(count + 1).drop_last() =~= tasks.take(count));
        lemma_tasks_problem_stays(tasks, declared, count + 1);
    } else {
        assert(tasks.take(count) =~= tasks);
    }
}

/// What the configuration's duration syntax read from the profile dialog's restart wait,
/// count reset and stop timeout fields; only a field that is not blank is read.
#[derive(Debug)]
pub struct ProfileReadings {
    /// Reading of the restart wait field.
    pub restart_delay: Result<u64, String>,
    /// Reading of the count reset field.
    pub restart_reset_after: Result<u64, String>,
    /// Reading of the stop timeout field.
    pub shutdown_timeout: Result<u64, String>,
}

/// Whether a name follows the rule for stable identifiers: not empty, and made of ASCII
/// letters, digits, `.`, `-` and `_` only.
pub open spec fn stable_name(name: Seq<char>) -> bool {
    name.len() > 0 && forall|index: int| 0 <= index < name.len() ==> name_character(#[trigger] name[index])
}

/// Message for a profile name that breaks the rule for stable identifiers.
pub open spec fn profile_name_message() -> Seq<char> {
    "profile 名称只能包含 ASCII 字母、数字、点、短横线和下划线"@
}

/// Message for a profile name already taken.
pub open spec fn taken_name_message(name: Seq<char>) -> Seq<char> {
    "profile 名称 `"@ + name + "` 已存在"@
}

/// Message for a profile that builds on itself.
pub open spec fn self_base_message() -> Seq<char> {
    "profile 不能继承自身"@
}

/// An optional integer list: nothing when blank.
pub open spec fn optional_codes(text: Seq<char>, label: Seq<char>) -> Result<Option<Seq<i32>>, Seq<char>> {
    match optional_text(text) {
        None => Ok(None),
        Some(value) => match integer_list(value, label) {
            Ok(codes) => Ok(Some(codes)),
            Err(message) => Err(message),
        },
    }
}

/// An optional count: nothing when blank.
pub open spec fn optional_count(text: Seq<char>, label: Seq<char>) -> Result<Option<u32>, Seq<char>> {
    if trimmed(text).len() == 0 {
        Ok(None)
    } else {
        match parse_unsigned(trimmed(text), u32::MAX as int) {
            Some(number) => Ok(Some(number as u32)),
            None => Err(unsigned_message(label)),
        }
    }
}

/// An optional task list: nothing when blank, else its argument list.
pub open spec fn optional_tasks(text: Seq<char>) -> Result<Option<Seq<Seq<char>>>, Seq<char>> {
    match optional_text(text) {
        None => Ok(None),
        Some(value) => match argument_list(value, "Task 白名单"@) {
            Ok(tasks) => Ok(Some(tasks)),
            Err(message) => Err(message),
        },
    }
}

/// The task defaults the profile dialog describes: working directory, environment, exit
/// codes, restart policy (`default` for none), restart wait, restart limit, count reset and
/// stop timeout; the first field that cannot be read makes it an error.
pub open spec fn profile_defaults_read(
    fields: Seq<FieldModel>,
    readings: (Result<u64, Seq<char>>, Result<u64, Seq<char>>, Result<u64, Seq<char>>),
) -> Result<DefaultsModel, Seq<char>> {
    match table_text_entries(fields[5].1, "Task 默认环境"@) {
        Err(message) => Err(message),
        Ok(env) => match optional_codes(fields[6].1, "Task 默认成功退出码"@) {
            Err(message) => Err(message),
            Ok(codes) => match duration_override(fields[8].1, readings.0, "Task 默认重启等待"@) {
                Err(message) => Err(message),
                Ok(delay) => match optional_count(fields[9].1, "Task 默认最大重启次数"@) {
                    Err(message) => Err(message),
                    Ok(limit) => match duration_override(fields[10].1, readings.1, "Task 默认计数重置"@) {
                        Err(message) => Err(message),
                        Ok(reset) => match duration_override(fields[11].1, readings.2, "Task 默认停止超时"@) {
                            Err(message) => Err(message),
                            Ok(shutdown) => Ok(
                                DefaultsModel {
                                    cwd: optional_text(fields[4].1),
                                    env,
                                    success_exit_codes: codes,
                                    restart: if fields[7].1 != "default"@ {
                                        Some(fields[7].1)
                                    } else {
                                        None
                                    },
                                    restart_delay_ms: delay,
                                    max_restarts: limit,
                                    restart_reset_after_ms: reset,
                                    shutdown_timeout_ms: shutdown,
                                },
                            ),
                        },
                    },
                },
            },
        },
    }
}

/// The name and profile the profile dialog describes, in the project's profiles with
/// `declared` the names of its tasks: the first problem in order makes it an error (a blank or
/// ill-formed name, a name already taken, a profile building on itself or on a chain that
/// comes back, an unreadable or bad task list, then the environment and task defaults).
pub open spec fn profile_read(
    original: Option<Seq<char>>,
    fields: Seq<FieldModel>,
    set: ProfileSetModel,
    declared: Seq<Seq<char>>,
    readings: (Result<u64, Seq<char>>, Result<u64, Seq<char>>, Result<u64, Seq<char>>),
) -> Result<(Seq<char>, ProfileModel), Seq<char>> {
    match required_read(fields[0].1, "profile 名称"@) {
        Err(message) => Err(message),
        Ok(name) => if !stable_name(name) {
            Err(profile_name_message())
        } else if original != Some(name) && names_of(set.profiles).contains(name) {
            Err(taken_name_message(name))
        } else {
            let extends = if fields[1].1 != "none"@ {
                Some(fields[1].1)
            } else {
                None
            };
            if extends == Some(name) {
                Err(self_base_message())
            } else {
                match inheritance_check(set.profiles, original, name, extends, seq![name]) {
                    Err(message) => Err(message),
                    Ok(()) => match optional_tasks(fields[2].1) {
                        Err(message) => Err(message),
                        Ok(tasks) => match (match tasks {
                            Some(tasks) => tasks_problem(tasks, declared),
                            None => None,
                        }) {
                            Some(message) => Err(message),
                            None => match table_text_entries(fields[3].1, "环境覆盖"@) {
                                Err(message) => Err(message),
                                Ok(env) => match profile_defaults_read(fields, readings) {
                                    Err(message) => Err(message),
                                    Ok(task_defaults) => Ok(
                                        (name, ProfileModel { extends, tasks, env, task_defaults }),
                                    ),
                                },
                            },
                        },
                    },
                }
            }
        },
    }
}

/// Reads the task defaults of the profile dialog.
#[verifier::rlimit(40)]
fn read_defaults(fields: &[DialogField], readings: &ProfileReadings) -> (result: Result<FormTaskDefaults, String>)
    requires
        fields@.len() >= 12,
    ensures
        match profile_defaults_read(
            field_models(fields@),
            (
                reading_model(readings.restart_delay),
                reading_model(readings.restart_reset_after),
                reading_model(readings.shutdown_timeout),
            ),
        ) {
            Ok(defaults) => result matches Ok(found) && found@ == defaults,
            Err(expected) => result matches Err(message) && message@ == expected,
        },
{
    let ghost models = field_models(fields@);
    assert(models[4].1 == fields@[4].value@);
    assert(models[5].1 == fields@[5].value@);
    assert(models[6].1 == fields@[6].value@);
    assert(models[7].1 == fields@[7].value@);
    assert(models[8].1 == fields@[8].value@);
    assert(models[9].1 == fields@[9].value@);
    assert(models[10].1 == fields@[10].value@);
    assert(models[11].1 == fields@[11].value@);
    let cwd = optional(fields[4].value.as_str());
    let env = match parse_map(fields[5].value.as_str(), "Task 默认环境") {
        Ok(env) => env,
        Err(message) => return Err(message),
    };
    let codes = match optional(fields[6].value.as_str()) {
        None => None,
        Some(value) => match parse_i32_list(value.as_str(), "Task 默认成功退出码") {
            Ok(codes) => Some(codes),
            Err(message) => return Err(message),
        },
    };
    let delay = match read_duration(fields[8].value.as_str(), &readings.restart_delay, "Task 默认重启等待") {
        Ok(value) => value,
        Err(message) => return Err(message),
    };
    let limit = match parse_optional_u32(fields[9].value.as_str(), "Task 默认最大重启次数") {
        Ok(value) => value,
        Err(message) => return Err(message),
    };
    let reset = match read_duration(fields[10].value.as_str(), &readings.restart_reset_after, "Task 默认计数重置") {
        Ok(value) => value,
        Err(message) => return Err(message),
    };
    let shutdown = match read_duration(fields[11].value.as_str(), &readings.shutdown_timeout, "Task 默认停止超时") {
        Ok(value) => value,
        Err(message) => return Err(message),
    };
    let default_text = "default".to_owned();
    proof {
        reveal_strlit("default");
    }
    let restart = if same_text(&fields[7].value, &default_text) {
        None
    } else {
        Some(fields[7].value.clone())
    };
    Ok(
        FormTaskDefaults {
            cwd,
            env,
            success_exit_codes: codes,
            restart,
            restart_delay_ms: delay,
            max_restarts: limit,
            restart_reset_after_ms: reset,
            shutdown_timeout_ms: shutdown,
        },
    )
}

/// Applies the profile dialog to the project's profiles: a new profile, or the profile
/// `original` under its possibly new name, with the profiles building on it and the active
/// choice following; `declared` are the names of the project's tasks. On an error the
/// profiles stay as they were.
#[verifier::rlimit(80)]
pub fn commit_profile(
    original: Option<&str>,
    fields: &[DialogField],
    set: &mut ProfileSet,
    declared: &Vec<String>,
    readings: &ProfileReadings,
) -> (result: Result<(), String>)
    requires
        fields@.len() >= 12,
        texts_ordered(names_of(old(set)@.profiles)),
    ensures
        texts_ordered(names_of(final(set)@.profiles)),
        match profile_read(
            match original {
                Some(original) => Some(original@),
                None => None,
            },
            field_models(fields@),
            old(set)@,
            declared.deep_view(),
            (
                reading_model(readings.restart_delay),
                reading_model(readings.restart_reset_after),
                reading_model(readings.shutdown_timeout),
            ),
        ) {
            Ok((name, profile)) => result is Ok && final(set)@ == replaced(
                old(set)@,
                match original {
                    Some(original) => Some(original@),
                    None => None,
                },
                name,
                profile,
            ),
            Err(expected) => result matches Err(message) && message@ == expected && final(set)@ == old(
                set,
            )@,
        },
{
    let ghost models = field_models(fields@);
    assert(models[0].1 == fields@[0].value@);
    assert(models[1].1 == fields@[1].value@);
    assert(models[2].1 == fields@[2].value@);
    assert(models[3].1 == fields@[3].value@);
    let name = match required_value(fields[0].value.as_str(), "profile 名称") {
        Ok(name) => name,
        Err(message) => return Err(message),
    };
    if !valid_name(name.as_str()) {
        return Err("profile 名称只能包含 ASCII 字母、数字、点、短横线和下划线".to_owned());
    }
    let same = match original {
        Some(original) => same_text(&name, &original.to_owned()),
        None => false,
    };
    if !same && set.has_profile(name.as_str()) {
        let mut message = "profile 名称 `".to_owned();
        crate::text::append_text(&mut message, name.as_str());
        crate::text::append_text(&mut message, "` 已存在");
        return Err(message);
    }
    let none = "none".to_owned();
    proof {
        reveal_strlit("none");
    }
    let extends = if same_text(&fields[1].value, &none) {
        None
    } else {
        Some(fields[1].value.clone())
    };
    let own_base = match &extends {
        Some(base) => same_text(base, &name),
        None => false,
    };
    if own_base {
        return Err("profile 不能继承自身".to_owned());
    }
    match check_inheritance(set, original, &name, &extends) {
        Ok(()) => {},
        Err(message) => return Err(message),
    }
    let tasks = match optional(fields[2].value.as_str()) {
        None => None,
        Some(value) => match parse_args(value.as_str(), "Task 白名单") {
            Ok(tasks) => Some(tasks),
            Err(message) => return Err(message),
        },
    };
    match &tasks {
        Some(list) => match check_tasks(list, declared) {
            Ok(()) => {},
            Err(message) => return Err(message),
        },
        None => {},
    }
    let env = match parse_map(fields[3].value.as_str(), "环境覆盖") {
        Ok(env) => env,
        Err(message) => return Err(message),
    };
    let task_defaults = match read_defaults(fields, readings) {
        Ok(defaults) => defaults,
        Err(message) => return Err(message),
    };
    let profile = FormProfile { extends, tasks, env, task_defaults };
    set.replace_profile(original, name, profile);
    Ok(())
}

/// The compact description of a profile in the profile list: what it builds on (`基础配置`
/// for the base configuration) and how many tasks it admits (`全部/继承` without a list).
pub open spec fn profile_summary(profile: ProfileModel) -> Seq<char> {
    "继承 "@ + match profile.extends {
        Some(base) => base,
        None => "基础配置"@,
    } + " · "@ + match profile.tasks {
        Some(tasks) => digits_of(tasks.len()) + " 个 Task"@,
        None => "全部/继承"@,
    }
}

/// The details of a profile: its name, base, task list, number of environment entries and the
/// summary of its task defaults.
pub open spec fn profile_detail(name: Seq<char>, profile: ProfileModel) -> Seq<char> {
    "名称："@ + name + "\n继承："@ + match profile.extends {
        Some(base) => base,
        None => "未配置"@,
    } + "\nTask 白名单："@ + match profile.tasks {
        None => "未声明（继承或全部）"@,
        Some(tasks) => if tasks.len() == 0 {
            "空白名单"@
        } else {
            joined(tasks, ", "@)
        },
    } + "\n环境覆盖："@ + digits_of(profile.env.len()) + " 项\nTask 默认覆盖："@
        + crate::task_defaults::defaults_summary(profile.task_defaults)
}

impl FormProfile {
    /// The compact description of the profile in the profile list.
    pub fn summary(&self) -> (result: String)
        ensures
            result@ == profile_summary(self@),
    {
        let mut result = "继承 ".to_owned();
        match &self.extends {
            Some(base) => crate::text::append_text(&mut result, base.as_str()),
            None => crate::text::append_text(&mut result, "基础配置"),
        }
        crate::text::append_text(&mut result, " · ");
        match &self.tasks {
            Some(tasks) => {
                crate::text::append_text(&mut result, natural_text(tasks.len() as u64).as_str());
                crate::text::append_text(&mut result, " 个 Task");
            },
            None => crate::text::append_text(&mut result, "全部/继承"),
        }
        assert(result@ =~= profile_summary(self@));
        result
    }

    /// The details of the profile named `name`.
    pub fn detail(&self, name: &str) -> (result: String)
        ensures
            result@ == profile_detail(name@, self@),
    {
        let mut result = "名称：".to_owned();
        crate::text::append_text(&mut result, name);
        crate::text::append_text(&mut result, "\n继承：");
        match &self.extends {
            Some(base) => crate::text::append_text(&mut result, base.as_str()),
            None => crate::text::append_text(&mut result, "未配置"),
        }
        crate::text::append_text(&mut result, "\nTask 白名单：");
        match &self.tasks {
            None => crate::text::append_text(&mut result, "未声明（继承或全部）"),
            Some(tasks) => if tasks.len() == 0 {
                crate::text::append_text(&mut result, "空白名单");
            } else {
                crate::text::append_text(&mut result, crate::directory_picker::join_texts(tasks, ", ").as_str());
            },
        }
        crate::text::append_text(&mut result, "\n环境覆盖：");
        crate::text::append_text(&mut result, natural_text(self.env.len() as u64).as_str());
        crate::text::append_text(&mut result, " 项\nTask 默认覆盖：");
        crate::text::append_text(&mut result, self.task_defaults.summary().as_str());
        assert(result@ =~= profile_detail(name@, self@));
        result
    }
}

} // verus!
