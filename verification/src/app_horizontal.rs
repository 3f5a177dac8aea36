//! Range of the horizontal viewport on each page of the service view.

use vstd::prelude::*;

use crate::app::{ActiveTab, App, AppView, longest};
use crate::log_view::visible_text;
use crate::protocol::{join_task_ids, TaskId, TaskView};
use crate::text::{display_width, joined, width};
use crate::text_view::{max_int, sat_add};

verus! {

/// Display width of a text as an integer.
pub open spec fn text_span(text: Seq<char>) -> int {
    display_width(text) as int
}

/// Widest of some widths; zero when there are none.
pub open spec fn widest(values: Seq<int>) -> int
    decreases values.len(),
{
    if values.len() == 0 {
        0
    } else {
        max_int(widest(values.drop_last()), values.last())
    }
}

/// Separator between the dependencies listed in a task's detail.
pub open spec fn dependency_separator() -> Seq<char> {
    seq![',', ' ']
}

/// Display width of an optional text; zero when there is none.
pub open spec fn optional_span(text: Option<Seq<char>>) -> int {
    match text {
        Some(text) => text_span(text),
        None => 0,
    }
}

/// Widest text of a task's detail: identifier, command, joined dependencies or message.
pub open spec fn task_detail_width(task: <TaskView as DeepView>::V) -> int {
    widest(
        seq![
            text_span(task.0),
            text_span(task.1),
            text_span(joined(task.2, dependency_separator())),
            optional_span(task.3),
        ],
    )
}

/// Width of a task's row on the dependency page: its widest dependency after its identifier.
pub open spec fn dependency_row_width(task: <TaskView as DeepView>::V) -> int {
    sat_add(
        widest(task.2.map_values(|dependency: Seq<char>| text_span(dependency))),
        sat_add(text_span(task.0), 4),
    )
}

/// Widest task identifier of a snapshot.
pub open spec fn widest_task_id(tasks: Seq<<TaskView as DeepView>::V>) -> int {
    widest(tasks.map_values(|task: <TaskView as DeepView>::V| text_span(task.0)))
}

/// Longest text of the current page that takes part in manual or, when `global`, automatic
/// scrolling.
pub open spec fn page_maximum(view: AppView, global: bool) -> int {
    let selected = if 0 <= view.selected < view.task_count() {
        Some(view.snapshot.1[view.selected])
    } else {
        None
    };
    let content = match view.tab {
        ActiveTab::Tasks => max_int(
            match selected {
                Some(task) => task_detail_width(task),
                None => 0,
            },
            if global {
                widest_task_id(view.snapshot.1)
            } else {
                0
            },
        ),
        ActiveTab::Dependencies => widest(
            view.snapshot.1.map_values(|task: <TaskView as DeepView>::V| dependency_row_width(task)),
        ),
        ActiveTab::Logs => match selected {
            Some(task) => if view.log_buffers.contains_key(task.0) {
                longest(visible_text(view.log_buffers[task.0], view.log_query, view.log_filtered))
            } else {
                0
            },
            None => 0,
        },
    };
    if global {
        max_int(
            max_int(
                max_int(content, sat_add(text_span(view.snapshot.0), 12)),
                match view.feedback {
                    Some(feedback) => text_span(feedback),
                    None => 0,
                },
            ),
            match selected {
                Some(task) => text_span(task.0),
                None => 0,
            },
        )
    } else {
        content
    }
}

/// Lemma: the widest of a longer prefix adds one more candidate.
pub proof fn lemma_widest_step(values: Seq<int>, index: int)
    requires
        0 <= index < values.len(),
    ensures
        widest(values.take(index + 1)) == max_int(widest(values.take(index)), values[index]),
{
    assert(values.take(index + 1).drop_last() == values.take(index));
}

/// Widest of the display widths of some identifiers.
fn widest_dependency(ids: &Vec<TaskId>) -> (result: usize)
    ensures
        result == widest(ids.deep_view().map_values(|dependency: Seq<char>| text_span(dependency))),
{
    let ghost values = ids.deep_view().map_values(|dependency: Seq<char>| text_span(dependency));
    let mut result: usize = 0;
    let mut index: usize = 0;
    while index < ids.len()
        invariant
            index <= ids@.len(),
            values == ids.deep_view().map_values(|dependency: Seq<char>| text_span(dependency)),
            result == widest(values.take(index as int)),
        decreases ids@.len() - index,
    {
        proof {
            lemma_widest_step(values, index as int);
        }
        let current = width(ids[index].as_str());
        if current > result {
            result = current;
        }
        index += 1;
    }
    assert(values.take(ids@.len() as int) == values);
    result
}

/// Widest text of a task's detail.
fn task_detail_span(task: &TaskView) -> (result: usize)
    ensures
        result == task_detail_width(task.deep_view()),
{
    let separator = ", ";
    proof {
        reveal_strlit(", ");
    }
    assert(separator@ == dependency_separator());
    let dependencies = join_task_ids(&task.dependencies, separator);
    let message = match &task.message {
        Some(message) => width(message.as_str()),
        None => 0,
    };
    let candidates = [
        width(task.task_id.as_str()),
        width(task.command.as_str()),
        width(dependencies.as_str()),
        message,
    ];
    let mut result: usize = 0;
    let mut index: usize = 0;
    let ghost values = seq![
        candidates[0] as int,
        candidates[1] as int,
        candidates[2] as int,
        candidates[3] as int,
    ];
    while index < 4
        invariant
            index <= 4,
            values.len() == 4,
            forall|k: int| 0 <= k < 4 ==> values[k] == candidates@[k] as int,
            result == widest(values.take(index as int)),
        decreases 4 - index,
    {
        proof {
            lemma_widest_step(values, index as int);
        }
        if candidates[index] > result {
            result = candidates[index];
        }
        index += 1;
    }
    assert(values.take(4) == values);
    assert(values == seq![
        text_span(task.deep_view().0),
        text_span(task.deep_view().1),
        text_span(joined(task.deep_view().2, dependency_separator())),
        optional_span(task.deep_view().3),
    ]);
    result
}

/// Widest row of the dependency page.
fn widest_dependency_row(tasks: &Vec<TaskView>) -> (result: usize)
    ensures
        result == widest(
            tasks.deep_view().map_values(|task: <TaskView as DeepView>::V| dependency_row_width(task)),
        ),
{
    let ghost values = tasks.deep_view().map_values(
        |task: <TaskView as DeepView>::V| dependency_row_width(task),
    );
    let mut result: usize = 0;
    let mut index: usize = 0;
    while index < tasks.len()
        invariant
            index <= tasks@.len(),
            values == tasks.deep_view().map_values(
                |task: <TaskView as DeepView>::V| dependency_row_width(task),
            ),
            result == widest(values.take(index as int)),
        decreases tasks@.len() - index,
    {
        proof {
            lemma_widest_step(values, index as int);
        }
        let task = &tasks[index];
        let identifier = width(task.task_id.as_str());
        let row = widest_dependency(&task.dependencies).saturating_add(identifier.saturating_add(4));
        assert(row == dependency_row_width(tasks.deep_view()[index as int]));
        if row > result {
            result = row;
        }
        index += 1;
    }
    assert(values.take(tasks@.len() as int) == values);
    result
}

/// Widest task identifier of a task list.
fn widest_identifier(tasks: &Vec<TaskView>) -> (result: usize)
    ensures
        result == widest_task_id(tasks.deep_view()),
{
    let ghost values = tasks.deep_view().map_values(
        |task: <TaskView as DeepView>::V| text_span(task.0),
    );
    let mut result: usize = 0;
    let mut index: usize = 0;
    while index < tasks.len()
        invariant
            index <= tasks@.len(),
            values == tasks.deep_view().map_values(
                |task: <TaskView as DeepView>::V| text_span(task.0),
            ),
            result == widest(values.take(index as int)),
        decreases tasks@.len() - index,
    {
        proof {
            lemma_widest_step(values, index as int);
        }
        let current = width(tasks[index].task_id.as_str());
        if current > result {
            result = current;
        }
        index += 1;
    }
    assert(values.take(tasks@.len() as int) == values);
    result
}

/// Longest text of the current page that takes part in manual or, when `global`, automatic
/// scrolling.
pub fn page_text_maximum(app: &App, global: bool) -> (result: usize)
    ensures
        result == page_maximum(app@, global),
{
    let content_maximum = match app.active_tab() {
        ActiveTab::Tasks => {
            let selected = match app.selected_task() {
                Some(task) => task_detail_span(task),
                None => 0,
            };
            let identifiers = if global {
                widest_identifier(&app.snapshot().tasks)
            } else {
                0
            };
            if selected > identifiers {
                selected
            } else {
                identifiers
            }
        },
        ActiveTab::Dependencies => widest_dependency_row(&app.snapshot().tasks),
        ActiveTab::Logs => match app.selected_task() {
            Some(task) => app.log_maximum_width(&task.task_id),
            None => 0,
        },
    };
    if !global {
        return content_maximum;
    }
    let project = width(app.snapshot().project.as_str()).saturating_add(12);
    let feedback = match app.feedback() {
        Some(feedback) => width(feedback),
        None => 0,
    };
    let selected = match app.selected_task() {
        Some(task) => width(task.task_id.as_str()),
        None => 0,
    };
    let mut result = content_maximum;
    if project > result {
        result = project;
    }
    if feedback > result {
        result = feedback;
    }
    if selected > result {
        result = selected;
    }
    result
}

/// Widest of some widths; zero when there are none.
pub fn widest_of(values: &[usize]) -> (result: usize)
    ensures
        result == widest(values@.map_values(|value: usize| value as int)),
{
    let ghost model = values@.map_values(|value: usize| value as int);
    let mut result: usize = 0;
    let mut index: usize = 0;
    while index < values.len()
        invariant
            index <= values@.len(),
            model == values@.map_values(|value: usize| value as int),
            result == widest(model.take(index as int)),
        decreases values@.len() - index,
    {
        proof {
            lemma_widest_step(model, index as int);
        }
        if values[index] > result {
            result = values[index];
        }
        index += 1;
    }
    assert(model.take(values@.len() as int) == model);
    result
}

/// Widest display width among some texts.
pub fn widest_text(texts: &Vec<String>) -> (result: usize)
    ensures
        result == widest(texts.deep_view().map_values(|text: Seq<char>| text_span(text))),
{
    let ghost model = texts.deep_view().map_values(|text: Seq<char>| text_span(text));
    let mut result: usize = 0;
    let mut index: usize = 0;
    while index < texts.len()
        invariant
            index <= texts@.len(),
            model == texts.deep_view().map_values(|text: Seq<char>| text_span(text)),
            result == widest(model.take(index as int)),
        decreases texts@.len() - index,
    {
        proof {
            lemma_widest_step(model, index as int);
        }
        let current = width(texts[index].as_str());
        if current > result {
            result = current;
        }
        index += 1;
    }
    assert(model.take(texts@.len() as int) == model);
    result
}

/// Display width of an optional text; zero when there is none.
pub fn optional_width(text: &Option<String>) -> (result: usize)
    ensures
        result == optional_span(text.deep_view()),
{
    match text {
        Some(text) => width(text.as_str()),
        None => 0,
    }
}

} // verus!
