//! Snapshots of a project and of the services a center hosts, as the interface receives them.

use vstd::prelude::*;

use crate::text::{append_text, copy_optional_text, joined, same_optional_text, same_text};

verus! {

/// Identifier of a task within a project.
#[derive(Clone, Debug)]
pub struct TaskId(pub String);

impl View for TaskId {
    type V = Seq<char>;

    open spec fn view(&self) -> Seq<char> {
        self.0@
    }
}

impl DeepView for TaskId {
    type V = Seq<char>;

    open spec fn deep_view(&self) -> Seq<char> {
        self.0@
    }
}

impl TaskId {
    /// A task identifier with the given name.
    pub fn new(name: String) -> (result: TaskId)
        ensures
            result@ == name@,
    {
        TaskId(name)
    }

    /// The identifier's text.
    pub fn as_str(&self) -> (result: &str)
        ensures
            result@ == self@,
    {
        self.0.as_str()
    }

    /// A copy of the identifier.
    pub fn copy(&self) -> (result: TaskId)
        ensures
            result@ == self@,
    {
        TaskId(self.0.clone())
    }

    /// Whether two identifiers name the same task.
    pub fn same(&self, other: &TaskId) -> (result: bool)
        ensures
            result == (self@ == other@),
    {
        same_text(&self.0, &other.0)
    }
}

/// Identifiers written one after another with a separator between neighbours.
pub fn join_task_ids(ids: &Vec<TaskId>, separator: &str) -> (result: String)
    ensures
        result@ == joined(ids.deep_view(), separator@),
{
    let mut result = String::new();
    let mut index: usize = 0;
    while index < ids.len()
        invariant
            index <= ids@.len(),
            result@ == joined(ids.deep_view().take(index as int), separator@),
        decreases ids@.len() - index,
    {
        let ghost parts = ids.deep_view().take(index + 1);
        assert(parts.drop_last() == ids.deep_view().take(index as int));
        if index > 0 {
            append_text(&mut result, separator);
        }
        append_text(&mut result, ids[index].as_str());
        index += 1;
    }
    assert(ids.deep_view().take(ids@.len() as int) == ids.deep_view());
    result
}

/// Whether two optional task identifiers are equal.
pub fn same_optional_task(left: &Option<TaskId>, right: &Option<TaskId>) -> (result: bool)
    ensures
        result == (left.deep_view() == right.deep_view()),
{
    match (left, right) {
        (Some(left), Some(right)) => left.same(right),
        (None, None) => true,
        _ => false,
    }
}

/// A copy of an optional task identifier.
pub fn copy_optional_task(task: &Option<TaskId>) -> (result: Option<TaskId>)
    ensures
        result.deep_view() == task.deep_view(),
{
    match task {
        Some(task) => Some(task.copy()),
        None => None,
    }
}

/// One task of a project snapshot.
#[derive(Clone, Debug)]
pub struct TaskView {
    /// The task's identifier.
    pub task_id: TaskId,
    /// Program the task runs.
    pub command: String,
    /// Identifiers of the tasks it depends on.
    pub dependencies: Vec<TaskId>,
    /// Latest diagnostic message, if any.
    pub message: Option<String>,
}

impl DeepView for TaskView {
    type V = (Seq<char>, Seq<char>, Seq<Seq<char>>, Option<Seq<char>>);

    open spec fn deep_view(&self) -> Self::V {
        (self.task_id@, self.command@, self.dependencies.deep_view(), self.message.deep_view())
    }
}

/// Whether two task lists hold the same identifiers in the same order.
pub fn same_task_ids(left: &Vec<TaskId>, right: &Vec<TaskId>) -> (result: bool)
    ensures
        result == (left.deep_view() == right.deep_view()),
{
    if left.len() != right.len() {
        assert(left.deep_view().len() != right.deep_view().len());
        return false;
    }
    let mut index: usize = 0;
    while index < left.len()
        invariant
            index <= left@.len() == right@.len(),
            forall|k: int| 0 <= k < index ==> left@[k]@ == right@[k]@,
        decreases left@.len() - index,
    {
        if !left[index].same(&right[index]) {
            assert(left.deep_view()[index as int] != right.deep_view()[index as int]);
            return false;
        }
        index += 1;
    }
    assert(left.deep_view() =~= right.deep_view());
    true
}

impl TaskView {
    /// Whether two task views hold the same data.
    pub fn same(&self, other: &TaskView) -> (result: bool)
        ensures
            result == (self.deep_view() == other.deep_view()),
    {
        self.task_id.same(&other.task_id) && same_text(&self.command, &other.command)
            && same_task_ids(&self.dependencies, &other.dependencies) && same_optional_text(
            &self.message,
            &other.message,
        )
    }
}

/// A consistent snapshot of one project and its tasks.
#[derive(Clone, Debug)]
pub struct ProjectSnapshot {
    /// The project's name.
    pub project: String,
    /// The project's tasks, in display order.
    pub tasks: Vec<TaskView>,
}

impl DeepView for ProjectSnapshot {
    type V = (Seq<char>, Seq<<TaskView as DeepView>::V>);

    open spec fn deep_view(&self) -> Self::V {
        (self.project@, self.tasks.deep_view())
    }
}

impl ProjectSnapshot {
    /// Whether two snapshots hold the same data.
    pub fn same(&self, other: &ProjectSnapshot) -> (result: bool)
        ensures
            result == (self.deep_view() == other.deep_view()),
    {
        if !same_text(&self.project, &other.project) {
            return false;
        }
        if self.tasks.len() != other.tasks.len() {
            assert(self.tasks.deep_view().len() != other.tasks.deep_view().len());
            return false;
        }
        let mut index: usize = 0;
        while index < self.tasks.len()
            invariant
                index <= self.tasks@.len() == other.tasks@.len(),
                forall|k: int|
                    0 <= k < index ==> self.tasks@[k].deep_view() == other.tasks@[k].deep_view(),
            decreases self.tasks@.len() - index,
        {
            if !self.tasks[index].same(&other.tasks[index]) {
                assert(self.tasks.deep_view()[index as int] != other.tasks.deep_view()[index as int]);
                return false;
            }
            index += 1;
        }
        assert(self.tasks.deep_view() =~= other.tasks.deep_view());
        true
    }
}

/// Lifecycle action a client asks the center to perform on a service.
#[derive(Clone, Copy, Debug, PartialEq, Eq, Structural)]
pub enum ServiceActionDto {
    /// Start the service.
    Start,
    /// Restart the service.
    Restart,
    /// Stop the service.
    Stop,
}

/// Running state of a hosted service.
#[derive(Clone, Copy, Debug, PartialEq, Eq, Structural)]
pub enum ServiceStatusDto {
    /// At least one task is running.
    Running,
    /// Nothing is running.
    Stopped,
    /// The service failed.
    Failed,
}

/// Resource usage of a service, summed over its processes.
#[derive(Clone, Copy, Debug, PartialEq, Eq, Structural)]
pub struct ResourceUsageDto {
    /// CPU usage in tenths of a percent.
    pub cpu_tenths_percent: Option<u16>,
    /// Resident memory in bytes.
    pub memory_bytes: Option<u64>,
}

impl DeepView for ResourceUsageDto {
    type V = ResourceUsageDto;

    open spec fn deep_view(&self) -> ResourceUsageDto {
        *self
    }
}

/// Summary of one service hosted by the center.
#[derive(Clone, Debug)]
pub struct ServiceViewDto {
    /// Stable service name.
    pub name: String,
    /// Root directory of the service.
    pub root: String,
    /// Path of the service's configuration file.
    pub config_path: String,
    /// Running state.
    pub status: ServiceStatusDto,
    /// Latest diagnostic message, if any.
    pub message: Option<String>,
    /// Resource usage, when sampled.
    pub resources: Option<ResourceUsageDto>,
}

impl DeepView for ServiceViewDto {
    type V = (
        Seq<char>,
        Seq<char>,
        Seq<char>,
        ServiceStatusDto,
        Option<Seq<char>>,
        Option<ResourceUsageDto>,
    );

    open spec fn deep_view(&self) -> Self::V {
        (
            self.name@,
            self.root@,
            self.config_path@,
            self.status,
            self.message.deep_view(),
            self.resources,
        )
    }
}

impl ServiceViewDto {
    /// Whether two service summaries hold the same data.
    pub fn same(&self, other: &ServiceViewDto) -> (result: bool)
        ensures
            result == (self.deep_view() == other.deep_view()),
    {
        same_text(&self.name, &other.name) && same_text(&self.root, &other.root) && same_text(
            &self.config_path,
            &other.config_path,
        ) && self.status == other.status && same_optional_text(&self.message, &other.message)
            && self.resources == other.resources
    }

    /// A copy of the summary.
    pub fn copy(&self) -> (result: ServiceViewDto)
        ensures
            result.deep_view() == self.deep_view(),
    {
        ServiceViewDto {
            name: self.name.clone(),
            root: self.root.clone(),
            config_path: self.config_path.clone(),
            status: self.status,
            message: copy_optional_text(&self.message),
            resources: self.resources,
        }
    }
}

/// Whether two service lists hold the same summaries in the same order.
pub fn same_services(left: &Vec<ServiceViewDto>, right: &Vec<ServiceViewDto>) -> (result: bool)
    ensures
        result == (left.deep_view() == right.deep_view()),
{
    if left.len() != right.len() {
        assert(left.deep_view().len() != right.deep_view().len());
        return false;
    }
    let mut index: usize = 0;
    while index < left.len()
        invariant
            index <= left@.len() == right@.len(),
            forall|k: int| 0 <= k < index ==> left@[k].deep_view() == right@[k].deep_view(),
        decreases left@.len() - index,
    {
        if !left[index].same(&right[index]) {
            assert(left.deep_view()[index as int] != right.deep_view()[index as int]);
            return false;
        }
        index += 1;
    }
    assert(left.deep_view() =~= right.deep_view());
    true
}

/// A copy of a service list.
pub fn copy_services(services: &Vec<ServiceViewDto>) -> (result: Vec<ServiceViewDto>)
    ensures
        result.deep_view() == services.deep_view(),
{
    let mut result: Vec<ServiceViewDto> = Vec::new();
    let mut index: usize = 0;
    while index < services.len()
        invariant
            index <= services@.len(),
            result@.len() == index,
            forall|k: int| 0 <= k < index ==> result@[k].deep_view() == services@[k].deep_view(),
        decreases services@.len() - index,
    {
        result.push(services[index].copy());
        index += 1;
    }
    assert(result.deep_view() =~= services.deep_view());
    result
}

} // verus!
