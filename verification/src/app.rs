//! State of the single-service page: task selection, tabs, control actions and feedback.

use vstd::prelude::*;

use crate::help::HelpVisibility;
use crate::input::{Key, KeyPress, MouseKind};
use crate::app_horizontal::{page_maximum, page_text_maximum};
use crate::protocol::{same_optional_task, copy_optional_task, ProjectSnapshot, ServiceActionDto, TaskId, TaskView};
use crate::task_map::TaskMap;
use crate::log_view::{
    parse_log, render_from, match_indices, match_lines, styled_text, visible_lines, visible_text, RenderedLine,
    lemma_matching_indices,
};
use crate::text::{
    append_text, chars_of, copy_optional_text, decode_lossy, same_optional_text, same_text, utf8_lossy,
    without_last_char, push_char,
};
use crate::text_view::{
    duration_nanos, min_int, sat_add, sat_sub, HorizontalScroll, ScrollView, MANUAL_SCROLL_FREEZE_NANOS,
};
use std::time::Duration;

verus! {

/// Logical lines one page of the log moves.
pub const LOG_PAGE_LINES: usize = 20;

/// Logical lines one mouse wheel step moves the log.
pub const LOG_WHEEL_LINES: usize = 3;

/// Whether the log shows only the lines that match the search.
#[derive(Clone, Copy, Debug, PartialEq, Eq, Structural)]
pub enum LogFilterMode {
    /// Every line.
    All,
    /// Matching lines only.
    Matches,
}

impl LogFilterMode {
    /// Whether only matching lines are shown.
    pub fn enabled(self) -> (result: bool)
        ensures
            result == (self == LogFilterMode::Matches),
    {
        match self {
            LogFilterMode::Matches => true,
            LogFilterMode::All => false,
        }
    }

    /// Switches between all lines and matching lines.
    pub fn toggle(&mut self)
        ensures
            final(self).enabled_spec() == !old(self).enabled_spec(),
    {
        *self = match *self {
            LogFilterMode::All => LogFilterMode::Matches,
            LogFilterMode::Matches => LogFilterMode::All,
        };
    }

    /// Whether only matching lines are shown.
    pub open spec fn enabled_spec(self) -> bool {
        self == LogFilterMode::Matches
    }
}

/// Page shown in the main area.
#[derive(Clone, Copy, Debug, PartialEq, Eq, Structural)]
pub enum ActiveTab {
    /// Task list and details of the selected task.
    Tasks,
    /// Read-only view of task dependencies.
    Dependencies,
    /// Log of the selected task.
    Logs,
}

impl ActiveTab {
    /// Position of the tab.
    pub open spec fn position(self) -> int {
        match self {
            ActiveTab::Tasks => 0,
            ActiveTab::Dependencies => 1,
            ActiveTab::Logs => 2,
        }
    }

    /// The next tab, wrapping around.
    pub open spec fn following(self) -> ActiveTab {
        match self {
            ActiveTab::Tasks => ActiveTab::Dependencies,
            ActiveTab::Dependencies => ActiveTab::Logs,
            ActiveTab::Logs => ActiveTab::Tasks,
        }
    }

    /// The previous tab, wrapping around.
    pub open spec fn preceding(self) -> ActiveTab {
        match self {
            ActiveTab::Tasks => ActiveTab::Logs,
            ActiveTab::Dependencies => ActiveTab::Tasks,
            ActiveTab::Logs => ActiveTab::Dependencies,
        }
    }

    /// Position of the tab.
    pub fn index(self) -> (result: usize)
        ensures
            result == self.position(),
    {
        match self {
            ActiveTab::Tasks => 0,
            ActiveTab::Dependencies => 1,
            ActiveTab::Logs => 2,
        }
    }

    /// The next tab, wrapping around.
    pub fn next(self) -> (result: ActiveTab)
        ensures
            result == self.following(),
    {
        match self {
            ActiveTab::Tasks => ActiveTab::Dependencies,
            ActiveTab::Dependencies => ActiveTab::Logs,
            ActiveTab::Logs => ActiveTab::Tasks,
        }
    }

    /// The previous tab, wrapping around.
    pub fn previous(self) -> (result: ActiveTab)
        ensures
            result == self.preceding(),
    {
        match self {
            ActiveTab::Tasks => ActiveTab::Logs,
            ActiveTab::Dependencies => ActiveTab::Tasks,
            ActiveTab::Logs => ActiveTab::Dependencies,
        }
    }
}

/// Whether the embedded configuration manager can be opened.
#[derive(Clone, Copy, Debug, PartialEq, Eq, Structural)]
pub enum ConfigEditState {
    /// No editable local configuration.
    Unavailable,
    /// The shortcut opens the manager.
    Ready,
    /// Opening was requested for the next turn of the event loop.
    Pending,
}

/// Abstract state of the service page.
pub ghost struct AppView {
    pub snapshot: <ProjectSnapshot as DeepView>::V,
    pub selected: int,
    pub tab: ActiveTab,
    pub quit: bool,
    pub pending_action: Option<ServiceActionDto>,
    pub feedback: Option<Seq<char>>,
    pub control_allowed: bool,
    pub plain_mode: bool,
    pub mac_key_hints: bool,
    pub log_buffers: Map<Seq<char>, Seq<u8>>,
    pub log_gaps: Set<Seq<char>>,
    pub log_scrolls: Map<Seq<char>, usize>,
    pub log_query: Seq<char>,
    pub log_search_input: Option<Seq<char>>,
    pub log_filtered: bool,
    pub log_match_indices: Map<Seq<char>, usize>,
    pub log_clear_confirmation: Option<Seq<char>>,
    pub pending_log_clear: Option<Seq<char>>,
    pub scroll: ScrollView,
    pub help_visible: bool,
    pub config_edit: ConfigEditState,
}

impl AppView {
    /// Number of tasks in the snapshot.
    pub open spec fn task_count(self) -> int {
        self.snapshot.1.len() as int
    }

    /// The selection points at a task, or at position 0 of an empty list, and a manual
    /// freeze lasts at most its full ten seconds.
    pub open spec fn valid(self) -> bool {
        &&& 0 <= self.selected
        &&& self.selected == 0 || self.selected < self.task_count()
        &&& self.match_choices_bounded()
        &&& 0 <= self.scroll.freeze <= MANUAL_SCROLL_FREEZE_NANOS
    }

    /// Identifier of the selected task, when there is one.
    pub open spec fn selected_task_id(self) -> Option<Seq<char>> {
        if 0 <= self.selected < self.task_count() {
            Some(self.snapshot.1[self.selected].0)
        } else {
            None
        }
    }

    /// The state with an unconfirmed log clearing and its feedback dropped.
    pub open spec fn without_clear_confirmation(self) -> AppView {
        if self.log_clear_confirmation is Some {
            AppView { log_clear_confirmation: None, feedback: None, ..self }
        } else {
            self
        }
    }

    /// The state after selecting the next task, wrapping around.
    pub open spec fn selected_next(self) -> AppView {
        let cancelled = self.without_clear_confirmation();
        if self.task_count() > 0 {
            AppView {
                selected: (self.selected + 1) % self.task_count(),
                scroll: self.scroll.reset(),
                ..cancelled
            }
        } else {
            cancelled
        }
    }

    /// The state after selecting the previous task, wrapping around.
    pub open spec fn selected_previous(self) -> AppView {
        let cancelled = self.without_clear_confirmation();
        if self.task_count() > 0 {
            AppView {
                selected: if self.selected > 0 {
                    self.selected - 1
                } else {
                    self.task_count() - 1
                },
                scroll: self.scroll.reset(),
                ..cancelled
            }
        } else {
            cancelled
        }
    }

    /// The state after switching to `tab`; switching to the current tab changes nothing else.
    pub open spec fn switched(self, tab: ActiveTab) -> AppView {
        let cancelled = self.without_clear_confirmation();
        if self.tab == tab {
            cancelled
        } else {
            AppView { tab, scroll: self.scroll.reset(), ..cancelled }
        }
    }
}

impl AppView {
    /// Raw log bytes kept for a task; nothing when none were read.
    pub open spec fn buffer_of(self, task: Seq<char>) -> Seq<u8> {
        if self.log_buffers.contains_key(task) {
            self.log_buffers[task]
        } else {
            Seq::empty()
        }
    }

    /// Number of visible log lines of a task under the current search and filter.
    pub open spec fn visible_count(self, task: Seq<char>) -> int {
        if self.log_buffers.contains_key(task) {
            visible_text(self.log_buffers[task], self.log_query, self.log_filtered).len() as int
        } else {
            0
        }
    }

    /// Two lines of gap notice when the task's log skipped unreadable data.
    pub open spec fn gap_lines(self, task: Seq<char>) -> int {
        if self.log_gaps.contains(task) {
            2
        } else {
            0
        }
    }

    /// Logical lines of a task's log: visible lines plus the gap notice.
    pub open spec fn total_lines(self, task: Seq<char>) -> int {
        self.visible_count(task) + self.gap_lines(task)
    }

    /// Lines between the view and the end of a task's log; zero follows new output.
    pub open spec fn distance(self, task: Seq<char>) -> int {
        if self.log_scrolls.contains_key(task) {
            self.log_scrolls[task] as int
        } else {
            0
        }
    }

    /// Visible lines of a task that match the search.
    pub open spec fn matches_of(self, task: Seq<char>) -> Seq<int> {
        if self.log_buffers.contains_key(task) {
            match_indices(self.log_buffers[task], self.log_query, self.log_filtered)
        } else {
            Seq::empty()
        }
    }

    /// Stored match choice of a task; zero when none is stored.
    pub open spec fn match_choice(self, task: Seq<char>) -> int {
        if self.log_match_indices.contains_key(task) {
            self.log_match_indices[task] as int
        } else {
            0
        }
    }

    /// The state after moving a task's log view to its current match.
    pub open spec fn focused(self, task: Seq<char>) -> AppView {
        let matches = self.matches_of(task);
        if matches.len() == 0 {
            AppView { log_scrolls: self.log_scrolls.insert(task, 0), ..self }
        } else {
            let index = min_int(self.match_choice(task), matches.len() - 1);
            let line = matches[index] + self.gap_lines(task);
            AppView {
                log_match_indices: self.log_match_indices.insert(task, index as usize),
                log_scrolls: self.log_scrolls.insert(
                    task,
                    sat_sub(self.total_lines(task), line + 1) as usize,
                ),
                ..self
            }
        }
    }

    /// Stored match choices never exceed `isize::MAX`.
    pub open spec fn match_choices_bounded(self) -> bool {
        forall|task: Seq<char>|
            #[trigger] self.log_match_indices.contains_key(task) ==> self.log_match_indices[task]
                <= isize::MAX
    }
}

impl AppView {
    /// The state after choosing the next or previous match of the selected task, wrapping around.
    pub open spec fn match_selected(self, forward: bool) -> AppView {
        match self.selected_task_id() {
            None => self,
            Some(task) => {
                let count = self.matches_of(task).len() as int;
                if count == 0 {
                    self
                } else {
                    let current = self.match_choice(task);
                    let next = if forward {
                        (current + 1) % count
                    } else if current == 0 {
                        count - 1
                    } else {
                        current - 1
                    };
                    AppView {
                        log_match_indices: self.log_match_indices.insert(task, next as usize),
                        ..self
                    }.focused(task)
                }
            },
        }
    }

    /// The state after switching between all lines and matching lines.
    pub open spec fn filter_toggled(self) -> AppView {
        if self.log_query.len() == 0 {
            self
        } else {
            let toggled = AppView {
                log_filtered: !self.log_filtered,
                log_scrolls: Map::empty(),
                ..self
            };
            match self.selected_task_id() {
                Some(task) => toggled.focused(task),
                None => toggled,
            }
        }
    }

    /// The state after setting the selected task's scroll distance with `distance`.
    pub open spec fn scrolled_to(self, distance: spec_fn(AppView, Seq<char>) -> int) -> AppView {
        match self.selected_task_id() {
            None => self,
            Some(task) => AppView {
                log_scrolls: self.log_scrolls.insert(task, distance(self, task) as usize),
                ..self
            },
        }
    }

    /// The state after moving the selected task's log one page towards its start.
    pub open spec fn log_paged_up(self, page_lines: usize) -> AppView {
        self.scrolled_to(
            |view: AppView, task: Seq<char>|
                min_int(
                    sat_add(
                        view.distance(task),
                        if page_lines > 0 {
                            page_lines as int
                        } else {
                            1
                        },
                    ),
                    view.total_lines(task),
                ),
        )
    }

    /// The state after moving the selected task's log one page towards its end.
    pub open spec fn log_paged_down(self, page_lines: usize) -> AppView {
        self.scrolled_to(
            |view: AppView, task: Seq<char>|
                sat_sub(
                    view.distance(task),
                    if page_lines > 0 {
                        page_lines as int
                    } else {
                        1
                    },
                ),
        )
    }

    /// The state after jumping to the first line of the selected task's log.
    pub open spec fn log_at_start(self) -> AppView {
        self.scrolled_to(|view: AppView, task: Seq<char>| view.total_lines(task))
    }

    /// The state after returning to the end of the selected task's log.
    pub open spec fn log_at_end(self) -> AppView {
        self.scrolled_to(|view: AppView, task: Seq<char>| 0)
    }

    /// The state after one key in the log search input.
    pub open spec fn search_key(self, key: Key) -> (AppView, bool) {
        match key {
            Key::Esc => (AppView { log_search_input: None, ..self }, true),
            Key::Enter => {
                let entered = AppView {
                    log_query: match self.log_search_input {
                        Some(input) => input,
                        None => Seq::empty(),
                    },
                    log_search_input: None,
                    log_match_indices: Map::empty(),
                    ..self
                };
                (
                    match self.selected_task_id() {
                        Some(task) => entered.focused(task),
                        None => entered,
                    },
                    true,
                )
            },
            Key::Backspace => (
                match self.log_search_input {
                    Some(input) => AppView {
                        log_search_input: Some(
                            if input.len() > 0 {
                                input.drop_last()
                            } else {
                                input
                            },
                        ),
                        ..self
                    },
                    None => self,
                },
                true,
            ),
            Key::Char(character) => (
                match self.log_search_input {
                    Some(input) => AppView { log_search_input: Some(input.push(character)), ..self },
                    None => self,
                },
                true,
            ),
            _ => (self, false),
        }
    }
}

/// Length of the longest text, in characters.
pub open spec fn longest(lines: Seq<Seq<char>>) -> int
    decreases lines.len(),
{
    if lines.len() == 0 {
        0
    } else {
        let rest = longest(lines.drop_last());
        if lines.last().len() > rest {
            lines.last().len() as int
        } else {
            rest
        }
    }
}

impl AppView {
    /// The state after appending bytes to a task's log, and whether it changed.
    pub open spec fn appended(self, task: Seq<char>, bytes: Seq<u8>, gap: bool) -> (AppView, bool) {
        let gap_changed = gap && !self.log_gaps.contains(task);
        if bytes.len() == 0 && !gap_changed {
            (self, false)
        } else {
            let previous = self.total_lines(task);
            let has_gap = gap || self.log_gaps.contains(task);
            let buffer = self.buffer_of(task) + bytes;
            let current = visible_text(buffer, self.log_query, self.log_filtered).len() + if has_gap {
                2int
            } else {
                0
            };
            let scrolls = if self.log_scrolls.contains_key(task) && self.log_scrolls[task] > 0 {
                self.log_scrolls.insert(
                    task,
                    sat_add(self.log_scrolls[task] as int, sat_sub(current, previous)) as usize,
                )
            } else {
                self.log_scrolls
            };
            (
                AppView {
                    log_buffers: self.log_buffers.insert(task, buffer),
                    log_scrolls: scrolls,
                    log_gaps: if gap {
                        self.log_gaps.insert(task)
                    } else {
                        self.log_gaps
                    },
                    ..self
                },
                true,
            )
        }
    }

    /// The state after clearing a task's log view for the session: its bytes, gap mark, scroll
    /// position and match choice all go, with a pending confirmation for it; the result says
    /// whether any of them was stored.
    pub open spec fn log_cleared(self, task: Seq<char>) -> (AppView, bool) {
        let unconfirmed = if self.log_clear_confirmation == Some(task) {
            AppView { log_clear_confirmation: None, ..self }
        } else {
            self
        };
        (
            AppView {
                log_buffers: self.log_buffers.remove(task),
                log_gaps: self.log_gaps.remove(task),
                log_scrolls: self.log_scrolls.remove(task),
                log_match_indices: self.log_match_indices.remove(task),
                ..unconfirmed
            },
            self.log_buffers.contains_key(task) || self.log_gaps.contains(task)
                || self.log_scrolls.contains_key(task) || self.log_match_indices.contains_key(
                task,
            ),
        )
    }
}

/// Feedback asking to press `C` again before a task's log is cleared.
pub open spec fn clear_prompt(task: Seq<char>) -> Seq<char> {
    "再次按 C 确认清空 Task `"@ + task + "` 的全部日志"@
}

/// What a key handler compares to tell whether the page changed.
pub type Observation = (
    int,
    ActiveTab,
    bool,
    Option<ServiceActionDto>,
    Option<int>,
    ScrollView,
    Seq<char>,
    Option<Seq<char>>,
    bool,
    Option<Seq<char>>,
    Option<Seq<char>>,
    Option<usize>,
);

impl AppView {
    /// Scroll distance of the selected task's log.
    pub open spec fn current_distance(self) -> Option<int> {
        match self.selected_task_id() {
            Some(task) => Some(self.distance(task)),
            None => None,
        }
    }

    /// Stored match choice of the selected task.
    pub open spec fn current_match_choice(self) -> Option<usize> {
        match self.selected_task_id() {
            Some(task) => if self.log_match_indices.contains_key(task) {
                Some(self.log_match_indices[task])
            } else {
                None
            },
            None => None,
        }
    }

    /// The parts of the state a key can change visibly.
    pub open spec fn observed(self) -> Observation {
        (
            self.selected,
            self.tab,
            self.quit,
            self.pending_action,
            self.current_distance(),
            self.scroll,
            self.log_query,
            self.log_search_input,
            self.log_filtered,
            self.log_clear_confirmation,
            self.pending_log_clear,
            self.current_match_choice(),
        )
    }

    /// The state after one manual horizontal move within the current page's texts.
    pub open spec fn moved_horizontally(self, forward: bool) -> AppView {
        AppView {
            scroll: self.scroll.moved(forward, sat_sub(page_maximum(self, false), 1)),
            ..self
        }
    }

    /// The state after `elapsed` nanoseconds of automatic scrolling, and whether to redraw.
    pub open spec fn auto_advanced(self, elapsed: int) -> (AppView, bool) {
        let (scroll, redraw) = self.scroll.advanced(elapsed, sat_sub(page_maximum(self, true), 1));
        (AppView { scroll, ..self }, redraw)
    }

    /// The state after a `C` on the log page: the first asks for confirmation, the second
    /// requests the clearing.
    pub open spec fn clear_requested(self) -> AppView {
        match self.selected_task_id() {
            None => self,
            Some(task) => if self.log_clear_confirmation == Some(task) {
                AppView { log_clear_confirmation: None, pending_log_clear: Some(task), ..self }
            } else {
                AppView {
                    feedback: Some(clear_prompt(task)),
                    log_clear_confirmation: Some(task),
                    ..self
                }
            },
        }
    }

    /// The state after the action bound to `key`, once an unrelated clear confirmation is gone.
    pub open spec fn key_applied(self, key: Key, page_lines: usize) -> AppView {
        let logs = self.tab == ActiveTab::Logs;
        if key == Key::Char('q') || key == Key::Esc {
            AppView { quit: true, ..self }
        } else if key == Key::Down || key == Key::Char('j') {
            self.selected_next()
        } else if key == Key::Up || key == Key::Char('k') {
            self.selected_previous()
        } else if key == Key::Tab {
            self.switched(self.tab.following())
        } else if key == Key::BackTab {
            self.switched(self.tab.preceding())
        } else if key == Key::Left {
            self.moved_horizontally(false)
        } else if key == Key::Right {
            self.moved_horizontally(true)
        } else if key == Key::F(3) {
            AppView {
                scroll: ScrollView { auto_on: !self.scroll.auto_on, ..self.scroll.reset() },
                ..self
            }
        } else if key == Key::Char('1') {
            self.switched(ActiveTab::Tasks)
        } else if key == Key::Char('2') {
            self.switched(ActiveTab::Dependencies)
        } else if key == Key::Char('3') {
            self.switched(ActiveTab::Logs)
        } else if key == Key::PageUp && logs {
            self.log_paged_up(page_lines)
        } else if key == Key::PageDown && logs {
            self.log_paged_down(page_lines)
        } else if key == Key::Home && logs {
            self.log_at_start()
        } else if key == Key::End && logs {
            self.log_at_end()
        } else if key == Key::Char('/') && logs {
            AppView { log_search_input: Some(self.log_query), ..self }
        } else if key == Key::Char('f') && logs {
            self.filter_toggled()
        } else if key == Key::Char('n') && logs {
            self.match_selected(true)
        } else if key == Key::Char('N') && logs {
            self.match_selected(false)
        } else if key == Key::Char('C') && logs {
            self.clear_requested()
        } else if key == Key::Char('s') && self.control_allowed {
            AppView { pending_action: Some(ServiceActionDto::Start), ..self }
        } else if key == Key::Char('x') && self.control_allowed {
            AppView { pending_action: Some(ServiceActionDto::Stop), ..self }
        } else if key == Key::Char('r') && self.control_allowed {
            AppView { pending_action: Some(ServiceActionDto::Restart), ..self }
        } else {
            self
        }
    }

    /// The state after one key on the service page, and whether anything observable changed.
    pub open spec fn key_handled(self, key: Key, page_lines: usize) -> (AppView, bool) {
        if self.log_search_input is Some {
            self.search_key(key)
        } else {
            let prepared = if key == Key::Char('C') {
                self
            } else {
                self.without_clear_confirmation()
            };
            let next = prepared.key_applied(key, page_lines);
            (next, next.observed() != self.observed())
        }
    }

    /// The state after a key press, Control-C quitting, and whether anything changed.
    pub open spec fn key_press_handled(self, key: KeyPress, page_lines: usize) -> (AppView, bool) {
        if key.code == Key::Char('c') && key.control {
            (AppView { quit: true, ..self }, !self.quit)
        } else {
            self.key_handled(key.code, page_lines)
        }
    }

    /// The state after a mouse event, the wheel scrolling the log on the log page and moving the
    /// selection elsewhere, and whether anything changed.
    pub open spec fn mouse_handled(self, mouse: MouseKind) -> (AppView, bool) {
        let cancelled = self.without_clear_confirmation();
        let logs = self.tab == ActiveTab::Logs;
        let next = if logs && mouse == MouseKind::ScrollUp {
            cancelled.log_paged_up(LOG_WHEEL_LINES)
        } else if logs && mouse == MouseKind::ScrollDown {
            cancelled.log_paged_down(LOG_WHEEL_LINES)
        } else if mouse == MouseKind::ScrollUp {
            cancelled.selected_previous()
        } else if mouse == MouseKind::ScrollDown {
            cancelled.selected_next()
        } else if mouse == MouseKind::ScrollLeft {
            cancelled.moved_horizontally(false)
        } else if mouse == MouseKind::ScrollRight {
            cancelled.moved_horizontally(true)
        } else {
            cancelled
        };
        (
            next,
            self.log_clear_confirmation is Some || (next.selected, next.current_distance(), next.scroll)
                != (cancelled.selected, cancelled.current_distance(), cancelled.scroll),
        )
    }
}

/// Whether two optional counts are equal.
fn same_count(left: Option<usize>, right: Option<usize>) -> (result: bool)
    ensures
        result == (left == right),
{
    match (left, right) {
        (Some(left), Some(right)) => left == right,
        (None, None) => true,
        _ => false,
    }
}

/// Whether two optional lifecycle actions are equal.
fn same_action(left: Option<ServiceActionDto>, right: Option<ServiceActionDto>) -> (result: bool)
    ensures
        result == (left == right),
{
    match (left, right) {
        (Some(left), Some(right)) => left == right,
        (None, None) => true,
        _ => false,
    }
}

/// The parts of the page a key handler compares before and after a key.
struct Observed {
    selected: usize,
    tab: ActiveTab,
    quit: bool,
    action: Option<ServiceActionDto>,
    log_scroll: Option<usize>,
    scroll: HorizontalScroll,
    query: String,
    search: Option<String>,
    filter: LogFilterMode,
    confirmation: Option<TaskId>,
    pending_clear: Option<TaskId>,
    match_index: Option<usize>,
}

impl Observed {
    /// The observation these values stand for.
    spec fn view(&self) -> Observation {
        (
            self.selected as int,
            self.tab,
            self.quit,
            self.action,
            match self.log_scroll {
                Some(distance) => Some(distance as int),
                None => None,
            },
            self.scroll@,
            self.query@,
            self.search.deep_view(),
            self.filter == LogFilterMode::Matches,
            self.confirmation.deep_view(),
            self.pending_clear.deep_view(),
            self.match_index,
        )
    }

    /// Whether two observations are equal.
    fn same(&self, other: &Observed) -> (result: bool)
        ensures
            result == (self.view() == other.view()),
    {
        proof {
            self.scroll.lemma_view(other.scroll);
        }
        self.selected == other.selected && self.tab == other.tab && self.quit == other.quit
            && same_action(self.action, other.action) && same_count(self.log_scroll, other.log_scroll)
            && self.scroll == other.scroll && same_text(&self.query, &other.query)
            && same_optional_text(&self.search, &other.search) && self.filter == other.filter
            && same_optional_task(&self.confirmation, &other.confirmation) && same_optional_task(
            &self.pending_clear,
            &other.pending_clear,
        ) && same_count(self.match_index, other.match_index)
    }
}

/// Protocol snapshot and local interaction state of the service page.
pub struct App {
    snapshot: ProjectSnapshot,
    selected: usize,
    active_tab: ActiveTab,
    should_quit: bool,
    pending_action: Option<ServiceActionDto>,
    feedback: Option<String>,
    control_allowed: bool,
    plain_mode: bool,
    mac_key_hints: bool,
    log_buffers: TaskMap<Vec<u8>>,
    log_gaps: TaskMap<()>,
    log_scrolls: TaskMap<usize>,
    log_query: String,
    log_search_input: Option<String>,
    log_filter_mode: LogFilterMode,
    log_match_indices: TaskMap<usize>,
    log_clear_confirmation: Option<TaskId>,
    pending_log_clear: Option<TaskId>,
    horizontal_scroll: HorizontalScroll,
    help_visibility: HelpVisibility,
    config_edit: ConfigEditState,
}

impl View for App {
    type V = AppView;

    closed spec fn view(&self) -> AppView {
        AppView {
            snapshot: self.snapshot.deep_view(),
            selected: self.selected as int,
            tab: self.active_tab,
            quit: self.should_quit,
            pending_action: self.pending_action,
            feedback: self.feedback.deep_view(),
            control_allowed: self.control_allowed,
            plain_mode: self.plain_mode,
            mac_key_hints: self.mac_key_hints,
            log_buffers: self.log_buffers@.map_values(|bytes: Vec<u8>| bytes@),
            log_gaps: self.log_gaps@.dom(),
            log_scrolls: self.log_scrolls@,
            log_query: self.log_query@,
            log_search_input: self.log_search_input.deep_view(),
            log_filtered: self.log_filter_mode == LogFilterMode::Matches,
            log_match_indices: self.log_match_indices@,
            log_clear_confirmation: self.log_clear_confirmation.deep_view(),
            pending_log_clear: self.pending_log_clear.deep_view(),
            scroll: self.horizontal_scroll@,
            help_visible: self.help_visibility == HelpVisibility::Visible,
            config_edit: self.config_edit,
        }
    }
}

impl App {
    /// Observation page for a consistent project snapshot.
    pub fn new(snapshot: ProjectSnapshot, plain_mode: bool, mac_key_hints: bool) -> (result: App)
        ensures
            result@.valid(),
            result@ == (AppView {
                snapshot: snapshot.deep_view(),
                selected: 0,
                tab: ActiveTab::Tasks,
                quit: false,
                pending_action: None,
                feedback: None,
                control_allowed: false,
                plain_mode,
                mac_key_hints,
                log_buffers: Map::empty(),
                log_gaps: Set::empty(),
                log_scrolls: Map::empty(),
                log_query: Seq::empty(),
                log_search_input: None,
                log_filtered: false,
                log_match_indices: Map::empty(),
                log_clear_confirmation: None,
                pending_log_clear: None,
                scroll: ScrollView {
                    manual: 0,
                    auto_on: false,
                    automatic: 0,
                    remainder: 0,
                    freeze: 0,
                },
                help_visible: false,
                config_edit: ConfigEditState::Unavailable,
            }),
    {
        let result = App {
            snapshot,
            selected: 0,
            active_tab: ActiveTab::Tasks,
            should_quit: false,
            pending_action: None,
            feedback: None,
            control_allowed: false,
            plain_mode,
            mac_key_hints,
            log_buffers: TaskMap::new(),
            log_gaps: TaskMap::new(),
            log_scrolls: TaskMap::new(),
            log_query: String::new(),
            log_search_input: None,
            log_filter_mode: LogFilterMode::All,
            log_match_indices: TaskMap::new(),
            log_clear_confirmation: None,
            pending_log_clear: None,
            horizontal_scroll: HorizontalScroll::new(),
            help_visibility: HelpVisibility::Hidden,
            config_edit: ConfigEditState::Unavailable,
        };
        assert(result@.log_buffers =~= Map::empty());
        assert(result@.log_gaps =~= Set::empty());
        assert(result@.match_choices_bounded());
        result
    }

    /// Replaces the content with a new snapshot from the server and keeps a sensible selection.
    pub fn replace_snapshot(&mut self, snapshot: ProjectSnapshot) -> (result: bool)
        requires
            old(self)@.valid(),
        ensures
            result == (old(self)@.snapshot != snapshot.deep_view()),
            final(self)@ == (if result {
                AppView {
                    snapshot: snapshot.deep_view(),
                    selected: if old(self)@.selected >= snapshot.tasks@.len() {
                        if snapshot.tasks@.len() > 0 {
                            snapshot.tasks@.len() - 1
                        } else {
                            0
                        }
                    } else {
                        old(self)@.selected
                    },
                    ..old(self)@
                }
            } else {
                old(self)@
            }),
            final(self)@.valid(),
    {
        if self.snapshot.same(&snapshot) {
            return false;
        }
        self.snapshot = snapshot;
        if self.selected >= self.snapshot.tasks.len() {
            self.selected = self.snapshot.tasks.len().saturating_sub(1);
        }
        true
    }

    /// Takes the pending service lifecycle action, if any.
    pub fn take_pending_action(&mut self) -> (result: Option<ServiceActionDto>)
        ensures
            result == old(self)@.pending_action,
            final(self)@ == (AppView { pending_action: None, ..old(self)@ }),
    {
        self.pending_action.take()
    }

    /// Shows the result of the latest operation; returns whether it changed.
    pub fn set_feedback(&mut self, feedback: String) -> (result: bool)
        ensures
            result == (old(self)@.feedback != Some(feedback@)),
            final(self)@ == (AppView { feedback: Some(feedback@), ..old(self)@ }),
    {
        if let Some(current) = &self.feedback {
            if *current == feedback {
                return false;
            }
        }
        self.feedback = Some(feedback);
        true
    }

    /// Latest operation or connection feedback.
    pub fn feedback(&self) -> (result: Option<&str>)
        ensures
            match result {
                Some(text) => self@.feedback == Some(text@),
                None => self@.feedback is None,
            },
    {
        match &self.feedback {
            Some(text) => Some(text.as_str()),
            None => None,
        }
    }

    /// Sets whether the session may submit control actions.
    pub fn set_control_allowed(&mut self, allowed: bool)
        ensures
            final(self)@ == (AppView { control_allowed: allowed, ..old(self)@ }),
    {
        self.control_allowed = allowed;
    }

    /// Whether the session may submit control actions.
    pub fn control_allowed(&self) -> (result: bool)
        ensures
            result == self@.control_allowed,
    {
        self.control_allowed
    }

    /// Horizontal character offset of the highlighted text.
    pub fn horizontal_offset(&self) -> (result: usize)
        ensures
            result == self@.scroll.manual,
    {
        self.horizontal_scroll.manual_offset()
    }

    /// Whether automatic scrolling of clipped texts is on.
    pub fn auto_scroll_enabled(&self) -> (result: bool)
        ensures
            result == self@.scroll.auto_on,
    {
        self.horizontal_scroll.auto_enabled()
    }

    /// Horizontal offset a text should use; automatic mode moves every text.
    pub fn text_offset(&self, selected: bool) -> (result: usize)
        ensures
            result == self@.scroll.offset_for(selected),
    {
        self.horizontal_scroll.offset(selected)
    }

    /// Offset of texts that are not highlighted: the automatic one, or zero.
    pub fn automatic_text_offset(&self) -> (result: usize)
        ensures
            result == (if self@.scroll.auto_on {
                self@.scroll.automatic
            } else {
                0
            }),
    {
        self.horizontal_scroll.automatic_offset()
    }

    /// Whether the highlighted text is frozen after a manual move.
    pub fn manual_scroll_frozen(&self) -> (result: bool)
        ensures
            result == self@.scroll.frozen(),
    {
        self.horizontal_scroll.manual_frozen()
    }

    /// Sets whether plain text suited to limited terminals is used.
    pub fn set_plain_mode(&mut self, plain: bool)
        ensures
            final(self)@ == (AppView { plain_mode: plain, ..old(self)@ }),
    {
        self.plain_mode = plain;
    }

    /// Whether plain text is used.
    pub fn plain_mode(&self) -> (result: bool)
        ensures
            result == self@.plain_mode,
    {
        self.plain_mode
    }

    /// Sets whether key hints name the macOS Fn combinations.
    pub fn set_mac_key_hints(&mut self, enabled: bool)
        ensures
            final(self)@ == (AppView { mac_key_hints: enabled, ..old(self)@ }),
    {
        self.mac_key_hints = enabled;
    }

    /// Whether key hints name the macOS Fn combinations.
    pub fn mac_key_hints(&self) -> (result: bool)
        ensures
            result == self@.mac_key_hints,
    {
        self.mac_key_hints
    }

    /// The current project snapshot.
    pub fn snapshot(&self) -> (result: &ProjectSnapshot)
        ensures
            result.deep_view() == self@.snapshot,
    {
        &self.snapshot
    }

    /// Index of the selected task.
    pub fn selected_index(&self) -> (result: usize)
        ensures
            result == self@.selected,
    {
        self.selected
    }

    /// The selected task, when the snapshot has tasks.
    pub fn selected_task(&self) -> (result: Option<&TaskView>)
        ensures
            match result {
                Some(task) => 0 <= self@.selected < self@.task_count() && task.deep_view()
                    == self@.snapshot.1[self@.selected],
                None => !(0 <= self@.selected < self@.task_count()),
            },
    {
        if self.selected < self.snapshot.tasks.len() {
            Some(&self.snapshot.tasks[self.selected])
        } else {
            None
        }
    }

    /// Identifier of the selected task, copied.
    fn selected_task_id(&self) -> (result: Option<TaskId>)
        ensures
            result.deep_view() == self@.selected_task_id(),
    {
        match self.selected_task() {
            Some(task) => Some(task.task_id.copy()),
            None => None,
        }
    }

    /// The page shown in the main area.
    pub fn active_tab(&self) -> (result: ActiveTab)
        ensures
            result == self@.tab,
    {
        self.active_tab
    }

    /// Whether the input loop should end.
    pub fn should_quit(&self) -> (result: bool)
        ensures
            result == self@.quit,
    {
        self.should_quit
    }

    /// Whether the shortcut help is shown.
    pub fn help_visible(&self) -> (result: bool)
        ensures
            result == self@.help_visible,
    {
        self.help_visibility.visible()
    }

    /// Drops a log clearing that was not confirmed yet, and its feedback.
    pub fn cancel_log_clear_confirmation(&mut self)
        ensures
            final(self)@ == old(self)@.without_clear_confirmation(),
    {
        if self.log_clear_confirmation.take().is_some() {
            self.feedback = None;
        }
    }

    /// Before a new key: drops an unconfirmed log clearing unless the key is the confirming `C`.
    pub fn prepare_key(&mut self, key: Key)
        ensures
            final(self)@ == (if key == Key::Char('C') {
                old(self)@
            } else {
                old(self)@.without_clear_confirmation()
            }),
    {
        if key != Key::Char('C') {
            self.cancel_log_clear_confirmation();
        }
    }

    /// Selects the next task, wrapping around at the end.
    pub fn select_next(&mut self)
        requires
            old(self)@.valid(),
        ensures
            final(self)@ == old(self)@.selected_next(),
            final(self)@.valid(),
    {
        self.cancel_log_clear_confirmation();
        if self.snapshot.tasks.len() > 0 {
            self.selected = (self.selected + 1) % self.snapshot.tasks.len();
            self.horizontal_scroll.reset_position();
        }
    }

    /// Selects the previous task, wrapping around at the start.
    pub fn select_previous(&mut self)
        requires
            old(self)@.valid(),
        ensures
            final(self)@ == old(self)@.selected_previous(),
            final(self)@.valid(),
    {
        self.cancel_log_clear_confirmation();
        if self.snapshot.tasks.len() > 0 {
            self.selected = if self.selected > 0 {
                self.selected - 1
            } else {
                self.snapshot.tasks.len() - 1
            };
            self.horizontal_scroll.reset_position();
        }
    }

    /// Switches to a tab, showing its texts from their start.
    pub fn switch_tab(&mut self, tab: ActiveTab)
        ensures
            final(self)@ == old(self)@.switched(tab),
    {
        self.cancel_log_clear_confirmation();
        if self.active_tab == tab {
            return;
        }
        self.active_tab = tab;
        self.horizontal_scroll.reset_position();
    }

    /// Switches to the neighbouring tab, wrapping around.
    pub fn switch_adjacent_tab(&mut self, forward: bool)
        ensures
            final(self)@ == old(self)@.switched(if forward {
                old(self)@.tab.following()
            } else {
                old(self)@.tab.preceding()
            }),
    {
        if forward {
            self.switch_tab(self.active_tab.next());
        } else {
            self.switch_tab(self.active_tab.previous());
        }
    }

    /// Switches automatic scrolling and starts again from the beginning of the texts.
    pub fn toggle_auto_scroll(&mut self)
        ensures
            final(self)@ == (AppView {
                scroll: ScrollView { auto_on: !old(self)@.scroll.auto_on, ..old(self)@.scroll.reset() },
                ..old(self)@
            }),
    {
        self.horizontal_scroll.toggle_auto();
    }

    /// While the help is open only its closing keys act; returns whether the key closed it.
    pub fn close_help_with(&mut self, key: Key) -> (result: bool)
        ensures
            result == (key == Key::Char('?') || key == Key::Char('q') || key == Key::Esc),
            final(self)@ == (if result {
                AppView { help_visible: false, ..old(self)@ }
            } else {
                old(self)@
            }),
    {
        if key == Key::Char('?') || key == Key::Char('q') || key == Key::Esc {
            self.help_visibility.close();
            true
        } else {
            false
        }
    }

    /// Takes a pending request to open the embedded configuration manager.
    pub fn take_pending_config_edit(&mut self) -> (result: bool)
        ensures
            result == (old(self)@.config_edit == ConfigEditState::Pending),
            final(self)@ == (if result {
                AppView { config_edit: ConfigEditState::Ready, ..old(self)@ }
            } else {
                old(self)@
            }),
    {
        if self.config_edit == ConfigEditState::Pending {
            self.config_edit = ConfigEditState::Ready;
            true
        } else {
            false
        }
    }

    /// Sets whether the service has an editable local configuration that can be applied.
    pub fn set_config_edit_allowed(&mut self, allowed: bool)
        ensures
            final(self)@ == (AppView {
                config_edit: if allowed {
                    ConfigEditState::Ready
                } else {
                    ConfigEditState::Unavailable
                },
                ..old(self)@
            }),
    {
        self.config_edit = if allowed {
            ConfigEditState::Ready
        } else {
            ConfigEditState::Unavailable
        };
    }

    /// Whether the configuration manager can be entered.
    pub fn config_edit_allowed(&self) -> (result: bool)
        ensures
            result == (self@.config_edit != ConfigEditState::Unavailable),
    {
        self.config_edit != ConfigEditState::Unavailable
    }

    /// Number of visible log lines of a task.
    fn log_visible_count(&self, task_id: &TaskId) -> (result: usize)
        ensures
            result == self@.visible_count(task_id@),
            result <= isize::MAX + 1,
    {
        match self.log_buffers.get(task_id) {
            Some(bytes) => {
                visible_lines(bytes.as_slice(), self.log_query.as_str(), self.log_filter_mode.enabled()).len()
            },
            None => 0,
        }
    }

    /// Logical lines of a task's log, the gap notice included.
    pub fn log_total_lines(&self, task_id: &TaskId) -> (result: usize)
        ensures
            result == self@.total_lines(task_id@),
            result <= isize::MAX + 3,
            self@.visible_count(task_id@) <= isize::MAX + 1,
    {
        let content_lines = self.log_visible_count(task_id);
        content_lines + if self.has_log_gap(task_id) {
            2
        } else {
            0
        }
    }

    /// Whether a task's log ever skipped unreadable data.
    pub fn has_log_gap(&self, task_id: &TaskId) -> (result: bool)
        ensures
            result == self@.log_gaps.contains(task_id@),
    {
        self.log_gaps.contains(task_id)
    }

    /// Lines between the view and the end of a task's log; zero follows new output.
    pub fn log_scroll_distance(&self, task_id: &TaskId) -> (result: usize)
        ensures
            result == self@.distance(task_id@),
    {
        match self.log_scrolls.get_copy(task_id) {
            Some(distance) => distance,
            None => 0,
        }
    }

    /// Top line of the log viewport for its content and visible height.
    pub fn log_scroll_top(&self, task_id: &TaskId, viewport_lines: usize) -> (result: usize)
        ensures
            ({
                let maximum = sat_sub(
                    self@.total_lines(task_id@),
                    if viewport_lines > 0 {
                        viewport_lines as int
                    } else {
                        1
                    },
                );
                result == sat_sub(maximum, min_int(self@.distance(task_id@), maximum))
            }),
    {
        let total_lines = self.log_total_lines(task_id);
        let viewport = if viewport_lines > 0 {
            viewport_lines
        } else {
            1
        };
        let maximum = total_lines.saturating_sub(viewport);
        let distance = self.log_scroll_distance(task_id);
        maximum.saturating_sub(if distance < maximum {
            distance
        } else {
            maximum
        })
    }

    /// Scroll distance of the selected task's log.
    pub fn current_log_scroll(&self) -> (result: Option<usize>)
        ensures
            result == (match self@.selected_task_id() {
                Some(task) => Some(self@.distance(task) as usize),
                None => None,
            }),
    {
        match self.selected_task() {
            Some(task) => Some(self.log_scroll_distance(&task.task_id)),
            None => None,
        }
    }

    /// Stored match choice of the selected task.
    pub fn current_log_match_index(&self) -> (result: Option<usize>)
        ensures
            result == (match self@.selected_task_id() {
                Some(task) => if self@.log_match_indices.contains_key(task) {
                    Some(self@.log_match_indices[task])
                } else {
                    None
                },
                None => None,
            }),
    {
        match self.selected_task() {
            Some(task) => self.log_match_indices.get_copy(&task.task_id),
            None => None,
        }
    }

    /// Visible lines of a task that match the search.
    pub fn log_match_lines(&self, task_id: &TaskId) -> (result: Vec<usize>)
        ensures
            result@.map_values(|index: usize| index as int) == self@.matches_of(task_id@),
            result@.len() <= isize::MAX + 1,
    {
        match self.log_buffers.get(task_id) {
            Some(bytes) => {
                let matches = match_lines(bytes.as_slice(), self.log_query.as_str(), self.log_filter_mode.enabled());
                let count = self.log_visible_count(task_id);
                proof {
                    lemma_matching_indices(visible_text(bytes@, self.log_query@, self.log_filter_mode == LogFilterMode::Matches), self.log_query@);
                    assert(matches@.len() == matches@.map_values(|index: usize| index as int).len());
                }
                matches
            },
            None => {
                let result: Vec<usize> = Vec::new();
                assert(result@.map_values(|index: usize| index as int) =~= Seq::<int>::empty());
                result
            },
        }
    }

    /// Moves a task's log view to its current search match.
    pub fn focus_log_match(&mut self, task_id: &TaskId)
        requires
            old(self)@.valid(),
        ensures
            final(self)@ == old(self)@.focused(task_id@),
            final(self)@.valid(),
    {
        let matches = self.log_match_lines(task_id);
        let ghost model = matches@.map_values(|index: usize| index as int);
        if matches.len() == 0 {
            self.log_scrolls.insert(task_id.copy(), 0);
            return;
        }
        proof {
            if self.log_buffers@.contains_key(task_id@) {
                let bytes = self@.log_buffers[task_id@];
                lemma_matching_indices(visible_text(bytes, self@.log_query, self@.log_filtered), self@.log_query);
            }
            assert(model[matches@.len() - 1] == matches@[matches@.len() - 1] as int);
        }
        let stored = match self.log_match_indices.get_copy(task_id) {
            Some(index) => index,
            None => 0,
        };
        let index = if stored < matches.len() - 1 {
            stored
        } else {
            matches.len() - 1
        };
        self.log_match_indices.insert(task_id.copy(), index);
        let total = self.log_total_lines(task_id);
        proof {
            assert(model[index as int] == matches@[index as int] as int);
            assert(self@.visible_count(task_id@) <= isize::MAX + 1);
        }
        let line = matches[index] + if self.has_log_gap(task_id) {
            2
        } else {
            0
        };
        let distance = total.saturating_sub(line + 1);
        self.log_scrolls.insert(task_id.copy(), distance);
        proof {
            assert(self@.log_buffers =~= old(self)@.log_buffers);
        }
    }

    /// Chooses the next or previous match of the selected task and moves the view to it.
    pub fn select_log_match(&mut self, forward: bool)
        requires
            old(self)@.valid(),
        ensures
            final(self)@ == old(self)@.match_selected(forward),
            final(self)@.valid(),
    {
        let task_id = match self.selected_task_id() {
            Some(task_id) => task_id,
            None => return,
        };
        let matches = self.log_match_lines(&task_id);
        let count = matches.len();
        if count == 0 {
            return;
        }
        let current = match self.log_match_indices.get_copy(&task_id) {
            Some(index) => index,
            None => 0,
        };
        let next = if forward {
            (current + 1) % count
        } else if current == 0 {
            count - 1
        } else {
            current - 1
        };
        self.log_match_indices.insert(task_id.copy(), next);
        self.focus_log_match(&task_id);
    }

    /// Switches to showing only matching lines or all lines, and returns to the current match.
    pub fn toggle_log_filter(&mut self)
        requires
            old(self)@.valid(),
        ensures
            final(self)@ == old(self)@.filter_toggled(),
            final(self)@.valid(),
    {
        if self.log_query.as_str().is_empty() {
            return;
        }
        self.log_filter_mode.toggle();
        self.log_scrolls.clear();
        if let Some(task_id) = self.selected_task_id() {
            self.focus_log_match(&task_id);
        }
    }

    /// Moves the selected task's log one page towards its start.
    pub fn scroll_log_up(&mut self, page_lines: usize)
        ensures
            final(self)@ == old(self)@.log_paged_up(page_lines),
    {
        let task_id = match self.selected_task_id() {
            Some(task_id) => task_id,
            None => return,
        };
        let maximum = self.log_total_lines(&task_id);
        let page = if page_lines > 0 {
            page_lines
        } else {
            1
        };
        let raised = self.log_scroll_distance(&task_id).saturating_add(page);
        self.log_scrolls.insert(task_id, if raised < maximum {
            raised
        } else {
            maximum
        });
    }

    /// Moves the selected task's log one page towards its end.
    pub fn scroll_log_down(&mut self, page_lines: usize)
        ensures
            final(self)@ == old(self)@.log_paged_down(page_lines),
    {
        let task_id = match self.selected_task_id() {
            Some(task_id) => task_id,
            None => return,
        };
        let page = if page_lines > 0 {
            page_lines
        } else {
            1
        };
        let lowered = self.log_scroll_distance(&task_id).saturating_sub(page);
        self.log_scrolls.insert(task_id, lowered);
    }

    /// Jumps to the first line of the selected task's log.
    pub fn scroll_log_to_start(&mut self)
        ensures
            final(self)@ == old(self)@.log_at_start(),
    {
        let task_id = match self.selected_task_id() {
            Some(task_id) => task_id,
            None => return,
        };
        let maximum = self.log_total_lines(&task_id);
        self.log_scrolls.insert(task_id, maximum);
    }

    /// Returns to the end of the selected task's log and follows new output again.
    pub fn scroll_log_to_end(&mut self)
        ensures
            final(self)@ == old(self)@.log_at_end(),
    {
        let task_id = match self.selected_task_id() {
            Some(task_id) => task_id,
            None => return,
        };
        self.log_scrolls.insert(task_id, 0);
    }

    /// Handles one key typed into the log search input; returns whether it acted.
    pub fn handle_log_search_input(&mut self, key: Key) -> (result: bool)
        requires
            old(self)@.valid(),
        ensures
            (final(self)@, result) == old(self)@.search_key(key),
            final(self)@.valid(),
    {
        match key {
            Key::Esc => {
                self.log_search_input = None;
            },
            Key::Enter => {
                self.log_query = match self.log_search_input.take() {
                    Some(input) => input,
                    None => String::new(),
                };
                self.log_match_indices.clear();
                if let Some(task_id) = self.selected_task_id() {
                    self.focus_log_match(&task_id);
                }
            },
            Key::Backspace => {
                if let Some(input) = &self.log_search_input {
                    self.log_search_input = Some(without_last_char(input));
                }
            },
            Key::Char(character) => {
                if let Some(input) = &self.log_search_input {
                    let mut extended = input.clone();
                    push_char(&mut extended, character);
                    self.log_search_input = Some(extended);
                }
            },
            _ => return false,
        }
        true
    }

    /// Appends a batch of a task's log and keeps the whole history read in this session;
    /// a view scrolled away from the end stays on the same lines.
    #[verifier::rlimit(40)]
    pub fn append_log(&mut self, task_id: TaskId, bytes: &[u8], gap: bool) -> (result: bool)
        requires
            old(self)@.valid(),
        ensures
            (final(self)@, result) == old(self)@.appended(task_id@, bytes@, gap),
            final(self)@.valid(),
    {
        let ghost before = self@;
        let ghost task = task_id@;
        let gap_changed = gap && !self.log_gaps.contains(&task_id);
        if bytes.len() == 0 && !gap_changed {
            return false;
        }
        let previous_lines = self.log_total_lines(&task_id);
        let has_gap = gap || self.has_log_gap(&task_id);
        let mut buffer = match self.log_buffers.take(&task_id) {
            Some(buffer) => buffer,
            None => Vec::new(),
        };
        buffer.extend_from_slice(bytes);
        let ghost buffer_model = buffer@;
        assert(buffer_model == before.buffer_of(task) + bytes@);
        let content_lines = visible_lines(
            buffer.as_slice(),
            self.log_query.as_str(),
            self.log_filter_mode.enabled(),
        ).len();
        self.log_buffers.insert(task_id.copy(), buffer);
        assert(self.log_buffers@.map_values(|bytes: Vec<u8>| bytes@) =~= before.log_buffers.insert(
            task,
            buffer_model,
        ));
        let current_lines = content_lines + if has_gap {
            2
        } else {
            0
        };
        assert(current_lines == visible_text(buffer_model, before.log_query, before.log_filtered).len()
            + if has_gap {
            2int
        } else {
            0
        });
        match self.log_scrolls.get_copy(&task_id) {
            Some(distance) => {
                if distance > 0 {
                    let added_lines = current_lines.saturating_sub(previous_lines);
                    self.log_scrolls.insert(task_id.copy(), distance.saturating_add(added_lines));
                }
            },
            None => {},
        }
        if gap {
            self.log_gaps.insert(task_id, ());
            assert(self.log_gaps@.dom() =~= before.log_gaps.insert(task));
        }
        proof {
            let expected = before.appended(task, bytes@, gap).0;
            assert(self@.log_buffers == expected.log_buffers);
            assert(self@.log_gaps == expected.log_gaps);
            assert(self@.log_scrolls == expected.log_scrolls);
            assert(self@.log_match_indices == before.log_match_indices);
        }
        true
    }

    /// Clears a task's log view state for this session; returns whether anything was stored.
    pub fn clear_log(&mut self, task_id: &TaskId) -> (result: bool)
        requires
            old(self)@.valid(),
        ensures
            (final(self)@, result) == old(self)@.log_cleared(task_id@),
            final(self)@.valid(),
    {
        let confirmed = match &self.log_clear_confirmation {
            Some(pending) => pending.same(task_id),
            None => false,
        };
        if confirmed {
            self.log_clear_confirmation = None;
        }
        let ghost before = self@;
        assert(before == (if old(self)@.log_clear_confirmation == Some(task_id@) {
            AppView { log_clear_confirmation: None, ..old(self)@ }
        } else {
            old(self)@
        }));
        let removed_bytes = self.log_buffers.remove(task_id);
        let removed_gap = self.log_gaps.remove(task_id);
        let removed_scroll = self.log_scrolls.remove(task_id);
        let removed_match = self.log_match_indices.remove(task_id);
        assert(self@.log_buffers =~= before.log_buffers.remove(task_id@));
        assert(self@.log_gaps =~= before.log_gaps.remove(task_id@));
        assert(self@.log_scrolls =~= before.log_scrolls.remove(task_id@));
        assert(self@.log_match_indices =~= before.log_match_indices.remove(task_id@));
        removed_bytes || removed_gap || removed_scroll || removed_match
    }

    /// A task's log as lossily decoded UTF-8 text.
    pub fn log_text(&self, task_id: &TaskId) -> (result: Option<String>)
        ensures
            match result {
                Some(text) => self@.log_buffers.contains_key(task_id@) && text@ == utf8_lossy(
                    self@.log_buffers[task_id@],
                ),
                None => !self@.log_buffers.contains_key(task_id@),
            },
    {
        match self.log_buffers.get(task_id) {
            Some(bytes) => Some(decode_lossy(bytes.as_slice())),
            None => None,
        }
    }

    /// Length in characters of the longest visible log line of a task.
    pub fn log_maximum_width(&self, task_id: &TaskId) -> (result: usize)
        ensures
            result == (if self@.log_buffers.contains_key(task_id@) {
                longest(visible_text(self@.log_buffers[task_id@], self@.log_query, self@.log_filtered))
            } else {
                0
            }),
    {
        match self.log_buffers.get(task_id) {
            Some(bytes) => {
                let lines = visible_lines(
                    bytes.as_slice(),
                    self.log_query.as_str(),
                    self.log_filter_mode.enabled(),
                );
                let mut maximum: usize = 0;
                let mut index: usize = 0;
                while index < lines.len()
                    invariant
                        index <= lines@.len(),
                        maximum == longest(lines.deep_view().take(index as int)),
                    decreases lines@.len() - index,
                {
                    let count = chars_of(lines[index].as_str()).len();
                    assert(lines.deep_view().take(index + 1).drop_last() =~= lines.deep_view().take(
                        index as int,
                    ));
                    if count > maximum {
                        maximum = count;
                    }
                    index += 1;
                }
                assert(lines.deep_view().take(lines@.len() as int) =~= lines.deep_view());
                maximum
            },
            None => 0,
        }
    }

    /// The current log search input; nothing when not typing a search.
    pub fn log_search_input(&self) -> (result: Option<&str>)
        ensures
            match result {
                Some(text) => self@.log_search_input == Some(text@),
                None => self@.log_search_input is None,
            },
    {
        match &self.log_search_input {
            Some(text) => Some(text.as_str()),
            None => None,
        }
    }

    /// The applied log search.
    pub fn log_query(&self) -> (result: &str)
        ensures
            result@ == self@.log_query,
    {
        self.log_query.as_str()
    }

    /// Whether the log shows only matching lines.
    pub fn log_filter_enabled(&self) -> (result: bool)
        ensures
            result == self@.log_filtered,
    {
        self.log_filter_mode.enabled()
    }

    /// Position of the current search match of a task and the number of matches.
    pub fn log_match_position(&self, task_id: &TaskId) -> (result: Option<(usize, usize)>)
        requires
            self@.valid(),
        ensures
            ({
                let matches = self@.matches_of(task_id@);
                if matches.len() == 0 {
                    result is None
                } else {
                    result == Some(
                        (
                            (min_int(self@.match_choice(task_id@), matches.len() - 1) + 1) as usize,
                            matches.len() as usize,
                        ),
                    )
                }
            }),
    {
        let matches = self.log_match_lines(task_id);
        if matches.len() == 0 {
            return None;
        }
        let stored = match self.log_match_indices.get_copy(task_id) {
            Some(index) => index,
            None => 0,
        };
        let index = if stored < matches.len() - 1 {
            stored
        } else {
            matches.len() - 1
        };
        Some((index + 1, matches.len()))
    }

    /// Takes a pending request to clear a task's stored log.
    pub fn take_pending_log_clear(&mut self) -> (result: Option<TaskId>)
        ensures
            result.deep_view() == old(self)@.pending_log_clear,
            final(self)@ == (AppView { pending_log_clear: None, ..old(self)@ }),
    {
        self.pending_log_clear.take()
    }

    /// Visible line of a task's current search match.
    pub fn active_log_match_line(&self, task_id: &TaskId) -> (result: Option<usize>)
        ensures
            ({
                let matches = self@.matches_of(task_id@);
                let index = self@.match_choice(task_id@);
                match result {
                    Some(line) => index < matches.len() && line == matches[index],
                    None => index >= matches.len(),
                }
            }),
    {
        let matches = self.log_match_lines(task_id);
        let index = match self.log_match_indices.get_copy(task_id) {
            Some(index) => index,
            None => 0,
        };
        if index < matches.len() {
            assert(matches@.map_values(|index: usize| index as int)[index as int] == matches@[index as int] as int);
            Some(matches[index])
        } else {
            None
        }
    }

    /// A task's log lines styled for display under the search, filter and current match.
    pub fn styled_log_text(&self, task_id: &TaskId) -> (result: Option<Vec<RenderedLine>>)
        ensures
            match result {
                Some(lines) => self@.log_buffers.contains_key(task_id@) && lines.deep_view()
                    == render_from(
                    parse_log(self@.log_buffers[task_id@]),
                    self@.log_query,
                    self@.log_filtered,
                    ({
                        let matches = self@.matches_of(task_id@);
                        let index = self@.match_choice(task_id@);
                        if index < matches.len() {
                            Some(matches[index])
                        } else {
                            None
                        }
                    }),
                    self@.plain_mode,
                ),
                None => !self@.log_buffers.contains_key(task_id@),
            },
    {
        let active_match = self.active_log_match_line(task_id);
        match self.log_buffers.get(task_id) {
            Some(bytes) => Some(
                styled_text(
                    bytes.as_slice(),
                    self.log_query.as_str(),
                    self.log_filter_mode.enabled(),
                    active_match,
                    self.plain_mode,
                ),
            ),
            None => None,
        }
    }
}

impl App {
    /// The parts of the page a key handler compares.
    fn observe(&self) -> (result: Observed)
        ensures
            result.view() == self@.observed(),
    {
        Observed {
            selected: self.selected,
            tab: self.active_tab,
            quit: self.should_quit,
            action: self.pending_action,
            log_scroll: self.current_log_scroll(),
            scroll: self.horizontal_scroll,
            query: self.log_query.clone(),
            search: copy_optional_text(&self.log_search_input),
            filter: self.log_filter_mode,
            confirmation: copy_optional_task(&self.log_clear_confirmation),
            pending_clear: copy_optional_task(&self.pending_log_clear),
            match_index: self.current_log_match_index(),
        }
    }

    /// Moves the highlighted text by one character within the current page's longest text.
    pub fn scroll_horizontal(&mut self, forward: bool)
        ensures
            final(self)@ == old(self)@.moved_horizontally(forward),
    {
        let maximum = page_text_maximum(self, false).saturating_sub(1);
        self.horizontal_scroll.scroll_manual(forward, maximum);
    }

    /// Advances automatic scrolling of folded texts, wrapping to the start after the end;
    /// returns whether a redraw is due.
    pub fn advance_auto_scroll(&mut self, elapsed: Duration) -> (result: bool)
        ensures
            (final(self)@, result) == old(self)@.auto_advanced(duration_nanos(elapsed) as int),
    {
        let maximum = page_text_maximum(self, true).saturating_sub(1);
        self.horizontal_scroll.advance(elapsed, maximum)
    }

    /// The first `C` on the log page asks for confirmation, the second requests the clearing.
    fn request_log_clear(&mut self)
        ensures
            final(self)@ == old(self)@.clear_requested(),
    {
        let task_id = match self.selected_task_id() {
            Some(task_id) => task_id,
            None => return,
        };
        let confirmed = match &self.log_clear_confirmation {
            Some(pending) => pending.same(&task_id),
            None => false,
        };
        if confirmed {
            self.log_clear_confirmation = None;
            self.pending_log_clear = Some(task_id);
        } else {
            let mut feedback = "再次按 C 确认清空 Task `".to_owned();
            append_text(&mut feedback, task_id.as_str());
            append_text(&mut feedback, "` 的全部日志");
            self.feedback = Some(feedback);
            self.log_clear_confirmation = Some(task_id);
        }
    }

    /// Performs the action bound to a key on the service page.
    fn apply_key(&mut self, key: Key, page_lines: usize)
        requires
            old(self)@.valid(),
        ensures
            final(self)@ == old(self)@.key_applied(key, page_lines),
            final(self)@.valid(),
    {
        let logs = self.active_tab == ActiveTab::Logs;
        if key == Key::Char('q') || key == Key::Esc {
            self.should_quit = true;
        } else if key == Key::Down || key == Key::Char('j') {
            self.select_next();
        } else if key == Key::Up || key == Key::Char('k') {
            self.select_previous();
        } else if key == Key::Tab {
            self.switch_tab(self.active_tab.next());
        } else if key == Key::BackTab {
            self.switch_tab(self.active_tab.previous());
        } else if key == Key::Left {
            self.scroll_horizontal(false);
        } else if key == Key::Right {
            self.scroll_horizontal(true);
        } else if key == Key::F(3) {
            self.toggle_auto_scroll();
        } else if key == Key::Char('1') {
            self.switch_tab(ActiveTab::Tasks);
        } else if key == Key::Char('2') {
            self.switch_tab(ActiveTab::Dependencies);
        } else if key == Key::Char('3') {
            self.switch_tab(ActiveTab::Logs);
        } else if key == Key::PageUp && logs {
            self.scroll_log_up(page_lines);
        } else if key == Key::PageDown && logs {
            self.scroll_log_down(page_lines);
        } else if key == Key::Home && logs {
            self.scroll_log_to_start();
        } else if key == Key::End && logs {
            self.scroll_log_to_end();
        } else if key == Key::Char('/') && logs {
            self.log_search_input = Some(self.log_query.clone());
        } else if key == Key::Char('f') && logs {
            self.toggle_log_filter();
        } else if key == Key::Char('n') && logs {
            self.select_log_match(true);
        } else if key == Key::Char('N') && logs {
            self.select_log_match(false);
        } else if key == Key::Char('C') && logs {
            self.request_log_clear();
        } else if key == Key::Char('s') && self.control_allowed {
            self.pending_action = Some(ServiceActionDto::Start);
        } else if key == Key::Char('x') && self.control_allowed {
            self.pending_action = Some(ServiceActionDto::Stop);
        } else if key == Key::Char('r') && self.control_allowed {
            self.pending_action = Some(ServiceActionDto::Restart);
        }
    }

    /// Handles one key with the real height of the log page; returns whether the page changed.
    pub fn handle_key_with_log_page(&mut self, key: Key, page_lines: usize) -> (result: bool)
        requires
            old(self)@.valid(),
        ensures
            (final(self)@, result) == old(self)@.key_handled(key, page_lines),
            final(self)@.valid(),
    {
        if self.log_search_input.is_some() {
            return self.handle_log_search_input(key);
        }
        let previous = self.observe();
        self.prepare_key(key);
        self.apply_key(key, page_lines);
        let current = self.observe();
        !current.same(&previous)
    }

    /// Handles one key with the default log page; returns whether the page changed.
    pub fn handle_key(&mut self, key: Key) -> (result: bool)
        requires
            old(self)@.valid(),
        ensures
            (final(self)@, result) == old(self)@.key_handled(key, LOG_PAGE_LINES),
            final(self)@.valid(),
    {
        self.handle_key_with_log_page(key, LOG_PAGE_LINES)
    }

    /// Handles a key press with the real height of the log page; Control-C always quits.
    pub fn handle_key_event_with_log_page(&mut self, key: KeyPress, page_lines: usize) -> (result: bool)
        requires
            old(self)@.valid(),
        ensures
            (final(self)@, result) == old(self)@.key_press_handled(key, page_lines),
            final(self)@.valid(),
    {
        if key.code == Key::Char('c') && key.control {
            let changed = !self.should_quit;
            self.should_quit = true;
            changed
        } else {
            self.handle_key_with_log_page(key.code, page_lines)
        }
    }

    /// Handles a key press with the default log page; Control-C always quits.
    pub fn handle_key_event(&mut self, key: KeyPress) -> (result: bool)
        requires
            old(self)@.valid(),
        ensures
            (final(self)@, result) == old(self)@.key_press_handled(key, LOG_PAGE_LINES),
            final(self)@.valid(),
    {
        self.handle_key_event_with_log_page(key, LOG_PAGE_LINES)
    }

    /// Performs the wheel action of the current page.
    fn apply_wheel(&mut self, mouse: MouseKind)
        requires
            old(self)@.valid(),
            old(self)@.log_clear_confirmation is None,
        ensures
            final(self)@ == (if old(self)@.tab == ActiveTab::Logs && mouse == MouseKind::ScrollUp {
                old(self)@.log_paged_up(LOG_WHEEL_LINES)
            } else if old(self)@.tab == ActiveTab::Logs && mouse == MouseKind::ScrollDown {
                old(self)@.log_paged_down(LOG_WHEEL_LINES)
            } else if mouse == MouseKind::ScrollUp {
                old(self)@.selected_previous()
            } else if mouse == MouseKind::ScrollDown {
                old(self)@.selected_next()
            } else if mouse == MouseKind::ScrollLeft {
                old(self)@.moved_horizontally(false)
            } else if mouse == MouseKind::ScrollRight {
                old(self)@.moved_horizontally(true)
            } else {
                old(self)@
            }),
            final(self)@.valid(),
    {
        match (self.active_tab, mouse) {
            (ActiveTab::Logs, MouseKind::ScrollUp) => self.scroll_log_up(LOG_WHEEL_LINES),
            (ActiveTab::Logs, MouseKind::ScrollDown) => self.scroll_log_down(LOG_WHEEL_LINES),
            (_, MouseKind::ScrollUp) => self.select_previous(),
            (_, MouseKind::ScrollDown) => self.select_next(),
            (_, MouseKind::ScrollLeft) => self.scroll_horizontal(false),
            (_, MouseKind::ScrollRight) => self.scroll_horizontal(true),
            _ => {},
        }
    }

    /// Handles the mouse wheel: it scrolls the log on the log page and moves the selection
    /// elsewhere; returns whether the page changed.
    #[verifier::rlimit(40)]
    pub fn handle_mouse(&mut self, mouse: MouseKind) -> (result: bool)
        requires
            old(self)@.valid(),
        ensures
            (final(self)@, result) == old(self)@.mouse_handled(mouse),
            final(self)@.valid(),
    {
        let confirmation_cancelled = self.log_clear_confirmation.is_some();
        self.cancel_log_clear_confirmation();
        let previous_selected = self.selected;
        let previous_scroll = self.current_log_scroll();
        let previous_view = self.horizontal_scroll;
        self.apply_wheel(mouse);
        proof {
            previous_view.lemma_view(self.horizontal_scroll);
        }
        confirmation_cancelled || self.selected != previous_selected || !same_count(
            self.current_log_scroll(),
            previous_scroll,
        ) || self.horizontal_scroll != previous_view
    }
}

/// Tabs form a cycle: the previous tab of the next one, and the next of the previous one, is
/// the tab itself, and three steps come back to it.
pub proof fn lemma_tab_cycle(tab: ActiveTab)
    ensures
        tab.following().preceding() == tab,
        tab.preceding().following() == tab,
        tab.following().following().following() == tab,
{
}

/// Selecting the next task and then the previous one comes back to the same task.
pub proof fn lemma_selection_round_trip(view: AppView)
    requires
        view.valid(),
        view.task_count() > 0,
    ensures
        view.selected_next().selected_previous().selected == view.selected,
        view.selected_previous().selected_next().selected == view.selected,
{
    let count = view.task_count();
    let selected = view.selected;
    assert(0 <= selected < count);
    if selected + 1 < count {
        assert((selected + 1) % count == selected + 1) by (nonlinear_arith)
            requires
                0 <= selected + 1 < count,
        ;
    } else {
        assert((selected + 1) % count == 0) by (nonlinear_arith)
            requires
                selected + 1 == count,
                count > 0,
        ;
    }
    if selected > 0 {
        assert((selected - 1 + 1) % count == selected) by (nonlinear_arith)
            requires
                0 < selected < count,
        ;
    } else {
        assert((count - 1 + 1) % count == 0) by (nonlinear_arith)
            requires
                count > 0,
        ;
    }
}

/// Switching to another tab shows its texts from their start; switching to the current tab
/// keeps the horizontal position.
pub proof fn lemma_switch_resets_scroll(view: AppView, tab: ActiveTab)
    ensures
        tab != view.tab ==> view.switched(tab).scroll == view.scroll.reset(),
        tab == view.tab ==> view.switched(tab).scroll == view.scroll,
        view.switched(tab).tab == tab,
{
}

/// Control-C always asks to quit.
pub proof fn lemma_interrupt_quits(view: AppView, key: KeyPress, page_lines: usize)
    requires
        key.code == Key::Char('c'),
        key.control,
    ensures
        view.key_press_handled(key, page_lines).0.quit,
        view.key_press_handled(key, page_lines).1 == !view.quit,
{
}

/// Clearing a task's log takes two presses of `C` on the log page: the first only asks for
/// confirmation, the second requests the clearing of that task's log.
pub proof fn lemma_clear_needs_confirmation(view: AppView, page_lines: usize)
    requires
        view.valid(),
        view.tab == ActiveTab::Logs,
        view.task_count() > 0,
        view.log_search_input is None,
        view.log_clear_confirmation is None,
    ensures
        ({
            let task = view.snapshot.1[view.selected].0;
            let first = view.key_handled(Key::Char('C'), page_lines).0;
            let second = first.key_handled(Key::Char('C'), page_lines).0;
            &&& first.pending_log_clear == view.pending_log_clear
            &&& first.log_clear_confirmation == Some(task)
            &&& first.feedback == Some(clear_prompt(task))
            &&& second.pending_log_clear == Some(task)
            &&& second.log_clear_confirmation is None
        }),
{
}

/// Any other key drops an unconfirmed clearing and its feedback.
pub proof fn lemma_other_key_cancels_clear(view: AppView, key: Key, page_lines: usize)
    requires
        view.log_search_input is None,
        view.log_clear_confirmation is Some,
        key != Key::Char('C'),
        key != Key::Char('q'),
        key != Key::Esc,
    ensures
        view.key_handled(key, page_lines).0.log_clear_confirmation is None,
{
}

/// Esc leaves the log search input without touching the applied search; Enter applies the
/// typed search.
pub proof fn lemma_search_escape_and_enter(view: AppView, typed: Seq<char>)
    requires
        view.log_search_input == Some(typed),
    ensures
        view.search_key(Key::Esc).0.log_query == view.log_query,
        view.search_key(Key::Esc).0.log_search_input is None,
        view.search_key(Key::Enter).0.log_query == typed,
        view.search_key(Key::Enter).0.log_search_input is None,
{
}

/// Appending keeps the whole history read in the session: the task's bytes grow by exactly
/// the new bytes, and other tasks' logs stay as they were.
pub proof fn lemma_append_keeps_history(view: AppView, task: Seq<char>, bytes: Seq<u8>, gap: bool, other: Seq<char>)
    requires
        other != task,
    ensures
        view.appended(task, bytes, gap).0.buffer_of(task) == view.buffer_of(task) + bytes,
        view.appended(task, bytes, gap).0.buffer_of(other) == view.buffer_of(other),
{
    if bytes.len() == 0 {
        assert(view.buffer_of(task) + bytes == view.buffer_of(task));
    }
}

/// Showing only matching lines and then all lines again restores the filter.
pub proof fn lemma_filter_toggle_twice(view: AppView)
    requires
        view.log_query.len() > 0,
    ensures
        view.filter_toggled().filter_toggled().log_filtered == view.log_filtered,
        view.filter_toggled().log_filtered == !view.log_filtered,
{
    let toggled = AppView {
        log_filtered: !view.log_filtered,
        log_scrolls: Map::empty(),
        ..view
    };
    match view.selected_task_id() {
        Some(task) => {
            assert(view.filter_toggled().log_filtered == toggled.focused(task).log_filtered);
        },
        None => {},
    }
}

/// Sum of elapsed times.
pub open spec fn total_elapsed(elapsed: Seq<int>) -> int
    decreases elapsed.len(),
{
    if elapsed.len() == 0 {
        0
    } else {
        total_elapsed(elapsed.drop_last()) + elapsed.last()
    }
}

impl AppView {
    /// The state after automatic scrolling advanced by each elapsed time in turn.
    pub open spec fn advanced_through(self, elapsed: Seq<int>) -> AppView
        decreases elapsed.len(),
    {
        if elapsed.len() == 0 {
            self
        } else {
            self.advanced_through(elapsed.drop_last()).auto_advanced(elapsed.last()).0
        }
    }
}

/// Law: time steps run the manual freeze down by their sum, so a freeze of at most ten
/// seconds (every valid page) has ended once ten seconds of steps have passed.
pub proof fn lemma_freeze_thaws(app: AppView, elapsed: Seq<int>)
    requires
        app.scroll.freeze >= 0,
        forall|index: int| 0 <= index < elapsed.len() ==> elapsed[index] >= 0,
    ensures
        app.advanced_through(elapsed).scroll.freeze == sat_sub(
            app.scroll.freeze,
            total_elapsed(elapsed),
        ),
        app.valid() && total_elapsed(elapsed) >= MANUAL_SCROLL_FREEZE_NANOS
            ==> !app.advanced_through(elapsed).scroll.frozen(),
    decreases elapsed.len(),
{
    if elapsed.len() > 0 {
        let shorter = elapsed.drop_last();
        assert forall|index: int| 0 <= index < shorter.len() implies shorter[index] >= 0 by {
            assert(shorter[index] == elapsed[index]);
        }
        lemma_freeze_thaws(app, shorter);
        assert(elapsed.last() == elapsed[elapsed.len() - 1]);
        lemma_total_nonnegative(shorter);
    }
}

/// Lemma: a sum of non-negative elapsed times is non-negative.
proof fn lemma_total_nonnegative(elapsed: Seq<int>)
    requires
        forall|index: int| 0 <= index < elapsed.len() ==> elapsed[index] >= 0,
    ensures
        total_elapsed(elapsed) >= 0,
    decreases elapsed.len(),
{
    if elapsed.len() > 0 {
        let shorter = elapsed.drop_last();
        assert forall|index: int| 0 <= index < shorter.len() implies shorter[index] >= 0 by {
            assert(shorter[index] == elapsed[index]);
        }
        lemma_total_nonnegative(shorter);
        assert(elapsed.last() == elapsed[elapsed.len() - 1]);
    }
}

/// One thing that happens to a service page: a key press (with the log page height), a mouse
/// event, elapsed time, log bytes read for a task, or a task's log being cleared.
pub ghost enum PageEvent {
    Key(KeyPress, usize),
    Mouse(MouseKind),
    Time(int),
    Append(Seq<char>, Seq<u8>, bool),
    Clear(Seq<char>),
}

impl AppView {
    /// The state after one event.
    pub open spec fn after_event(self, event: PageEvent) -> AppView {
        match event {
            PageEvent::Key(key, page_lines) => self.key_press_handled(key, page_lines).0,
            PageEvent::Mouse(mouse) => self.mouse_handled(mouse).0,
            PageEvent::Time(elapsed) => self.auto_advanced(elapsed).0,
            PageEvent::Append(task, bytes, gap) => self.appended(task, bytes, gap).0,
            PageEvent::Clear(task) => self.log_cleared(task).0,
        }
    }

    /// The state after events in turn.
    pub open spec fn after_events(self, events: Seq<PageEvent>) -> AppView
        decreases events.len(),
    {
        if events.len() == 0 {
            self
        } else {
            self.after_events(events.drop_last()).after_event(events.last())
        }
    }
}

/// Lemma: no event grants or withdraws control, withdraws a request to quit, or drops a gap
/// mark other than clearing that task's log.
proof fn lemma_event_keeps(app: AppView, event: PageEvent, task: Seq<char>)
    ensures
        app.after_event(event).control_allowed == app.control_allowed,
        app.quit ==> app.after_event(event).quit,
        app.log_gaps.contains(task) && event != PageEvent::Clear(task) ==> app.after_event(
            event,
        ).log_gaps.contains(task),
{
    match event {
        PageEvent::Key(key, page_lines) => {
            if key.code == Key::Char('c') && key.control {
            } else if app.log_search_input is Some {
            } else {
                let prepared = if key.code == Key::Char('C') {
                    app
                } else {
                    app.without_clear_confirmation()
                };
                lemma_key_applied_keeps(prepared, key.code, page_lines);
            }
        },
        _ => {},
    }
}

/// Lemma: the action of a key keeps control, a request to quit and the gap marks.
proof fn lemma_key_applied_keeps(app: AppView, key: Key, page_lines: usize)
    ensures
        app.key_applied(key, page_lines).control_allowed == app.control_allowed,
        app.quit ==> app.key_applied(key, page_lines).quit,
        app.key_applied(key, page_lines).log_gaps == app.log_gaps,
{
    match app.selected_task_id() {
        Some(task) => {
            let toggled = AppView { log_filtered: !app.log_filtered, log_scrolls: Map::empty(), ..app };
            let _ = toggled.focused(task);
        },
        None => {},
    }
}

/// Law: control over the service stays as it was through every key, mouse, time and log
/// event; only granting or withdrawing it changes it, and a new page starts without it.
pub proof fn lemma_control_kept(app: AppView, events: Seq<PageEvent>)
    ensures
        app.after_events(events).control_allowed == app.control_allowed,
    decreases events.len(),
{
    if events.len() > 0 {
        lemma_control_kept(app, events.drop_last());
        lemma_event_keeps(app.after_events(events.drop_last()), events.last(), Seq::empty());
    }
}

/// Law: once the page is asked to quit, no later event withdraws it.
pub proof fn lemma_quit_kept(app: AppView, events: Seq<PageEvent>)
    requires
        app.quit,
    ensures
        app.after_events(events).quit,
    decreases events.len(),
{
    if events.len() > 0 {
        lemma_quit_kept(app, events.drop_last());
        lemma_event_keeps(app.after_events(events.drop_last()), events.last(), Seq::empty());
    }
}

/// Law: a task's gap mark stays until that task's log is cleared.
pub proof fn lemma_gap_kept(app: AppView, task: Seq<char>, events: Seq<PageEvent>)
    requires
        app.log_gaps.contains(task),
        forall|index: int| 0 <= index < events.len() ==> events[index] != PageEvent::Clear(task),
    ensures
        app.after_events(events).log_gaps.contains(task),
    decreases events.len(),
{
    if events.len() > 0 {
        let shorter = events.drop_last();
        assert forall|index: int| 0 <= index < shorter.len() implies shorter[index]
            != PageEvent::Clear(task) by {
            assert(shorter[index] == events[index]);
        }
        lemma_gap_kept(app, task, shorter);
        assert(events.last() == events[events.len() - 1]);
        lemma_event_keeps(app.after_events(shorter), events.last(), task);
    }
}

/// Law: reading bytes with a gap marks the gap.
pub proof fn lemma_gap_marked(app: AppView, task: Seq<char>, bytes: Seq<u8>)
    ensures
        app.appended(task, bytes, true).0.log_gaps.contains(task),
{
}

/// The bytes appended to a task's log by events, in order.
pub open spec fn appended_bytes(events: Seq<PageEvent>, task: Seq<char>) -> Seq<u8>
    decreases events.len(),
{
    if events.len() == 0 {
        Seq::empty()
    } else {
        appended_bytes(events.drop_last(), task) + match events.last() {
            PageEvent::Append(target, bytes, _) => if target == task {
                bytes
            } else {
                Seq::empty()
            },
            _ => Seq::empty(),
        }
    }
}

/// Lemma: only reading and clearing change a task's stored bytes.
proof fn lemma_event_bytes(app: AppView, event: PageEvent, task: Seq<char>)
    requires
        event != PageEvent::Clear(task),
    ensures
        app.after_event(event).buffer_of(task) == app.buffer_of(task) + match event {
            PageEvent::Append(target, bytes, _) => if target == task {
                bytes
            } else {
                Seq::empty()
            },
            _ => Seq::<u8>::empty(),
        },
{
    match event {
        PageEvent::Key(key, page_lines) => {
            if key.code == Key::Char('c') && key.control {
            } else if app.log_search_input is Some {
                match key.code {
                    Key::Enter => {
                        let entered = AppView {
                            log_query: match app.log_search_input {
                                Some(input) => input,
                                None => Seq::empty(),
                            },
                            log_search_input: None,
                            log_match_indices: Map::empty(),
                            ..app
                        };
                        match app.selected_task_id() {
                            Some(focus) => {
                                let _ = entered.focused(focus);
                            },
                            None => {},
                        }
                    },
                    _ => {},
                }
            } else {
                let prepared = if key.code == Key::Char('C') {
                    app
                } else {
                    app.without_clear_confirmation()
                };
                lemma_key_applied_buffers(prepared, key.code, page_lines);
            }
            assert(app.after_event(event).buffer_of(task) =~= app.buffer_of(task) + Seq::<u8>::empty());
        },
        PageEvent::Append(target, bytes, gap) => {
            if target == task {
                assert(app.after_event(event).buffer_of(task) =~= app.buffer_of(task) + bytes);
            } else {
                assert(app.after_event(event).buffer_of(task) =~= app.buffer_of(task) + Seq::<u8>::empty());
            }
        },
        PageEvent::Clear(target) => {
            assert(app.after_event(event).buffer_of(task) =~= app.buffer_of(task) + Seq::<u8>::empty());
        },
        _ => {
            assert(app.after_event(event).buffer_of(task) =~= app.buffer_of(task) + Seq::<u8>::empty());
        },
    }
}

/// Lemma: the action of a key keeps every stored log.
proof fn lemma_key_applied_buffers(app: AppView, key: Key, page_lines: usize)
    ensures
        app.key_applied(key, page_lines).log_buffers == app.log_buffers,
{
    match app.selected_task_id() {
        Some(task) => {
            let toggled = AppView { log_filtered: !app.log_filtered, log_scrolls: Map::empty(), ..app };
            let _ = toggled.focused(task);
        },
        None => {},
    }
}

/// Law: until a task's log is cleared, what it holds is what it held followed by every chunk
/// read for it, in order; the log text is that whole history decoded.
pub proof fn lemma_log_history(app: AppView, task: Seq<char>, events: Seq<PageEvent>)
    requires
        forall|index: int| 0 <= index < events.len() ==> events[index] != PageEvent::Clear(task),
    ensures
        app.after_events(events).buffer_of(task) == app.buffer_of(task) + appended_bytes(events, task),
    decreases events.len(),
{
    if events.len() == 0 {
        assert(app.buffer_of(task) + appended_bytes(events, task) =~= app.buffer_of(task));
    } else {
        let shorter = events.drop_last();
        assert forall|index: int| 0 <= index < shorter.len() implies shorter[index]
            != PageEvent::Clear(task) by {
            assert(shorter[index] == events[index]);
        }
        lemma_log_history(app, task, shorter);
        assert(events.last() == events[events.len() - 1]);
        lemma_event_bytes(app.after_events(shorter), events.last(), task);
        let tail = match events.last() {
            PageEvent::Append(target, bytes, _) => if target == task {
                bytes
            } else {
                Seq::<u8>::empty()
            },
            _ => Seq::<u8>::empty(),
        };
        assert(app.buffer_of(task) + appended_bytes(shorter, task) + tail =~= app.buffer_of(task)
            + appended_bytes(events, task));
    }
}

/// Whether events are the key presses, without Control, that type a text.
pub open spec fn types_text(events: Seq<PageEvent>, text: Seq<char>, page_lines: usize) -> bool {
    &&& events.len() == text.len()
    &&& forall|index: int| 0 <= index < text.len() ==> #[trigger] events[index] == pressed(Key::Char(text[index]), page_lines)
}

/// A key press without Control.
pub open spec fn pressed(code: Key, page_lines: usize) -> PageEvent {
    PageEvent::Key(KeyPress { code, control: false }, page_lines)
}

/// Lemma: typing into the open search input extends it and changes nothing else.
proof fn lemma_search_typing(
    app: AppView,
    input: Seq<char>,
    events: Seq<PageEvent>,
    text: Seq<char>,
    page_lines: usize,
)
    requires
        app.log_search_input == Some(input),
        types_text(events, text, page_lines),
    ensures
        app.after_events(events) == (AppView { log_search_input: Some(input + text), ..app }),
    decreases text.len(),
{
    if text.len() == 0 {
        assert(input + text =~= input);
        assert(app.after_events(events) == app);
    } else {
        let shorter = text.drop_last();
        assert forall|index: int| 0 <= index < shorter.len() implies #[trigger] events.drop_last()[index]
            == pressed(Key::Char(shorter[index]), page_lines) by {
            assert(events[index] == pressed(Key::Char(text[index]), page_lines));
        }
        lemma_search_typing(app, input, events.drop_last(), shorter, page_lines);
        assert(events.last() == events[text.len() - 1]);
        assert(events.last() == pressed(Key::Char(text.last()), page_lines));
        let before = app.after_events(events.drop_last());
        assert(before.log_search_input == Some(input + shorter));
        assert((input + shorter).push(text.last()) =~= input + text);
        assert(before.after_event(events.last()) == (AppView {
            log_search_input: Some((input + shorter).push(text.last())),
            ..before
        }));
    }
}

/// Law: on the log page, `/` opens the search with the applied query, typed characters extend
/// it, Esc closes it leaving the applied query as it was, and Enter applies the typed query.
pub proof fn lemma_typed_search(
    app: AppView,
    events: Seq<PageEvent>,
    text: Seq<char>,
    page_lines: usize,
)
    requires
        app.tab == ActiveTab::Logs,
        app.log_search_input is None,
        types_text(events, text, page_lines),
    ensures
        ({
            let opened = app.after_event(pressed(Key::Char('/'), page_lines));
            let typed = opened.after_events(events);
            &&& opened.log_search_input == Some(app.log_query)
            &&& opened.log_query == app.log_query
            &&& typed.log_search_input == Some(app.log_query + text)
            &&& typed.after_event(pressed(Key::Esc, page_lines)).log_search_input is None
            &&& typed.after_event(pressed(Key::Esc, page_lines)).log_query == app.log_query
            &&& typed.after_event(pressed(Key::Enter, page_lines)).log_search_input is None
            &&& typed.after_event(pressed(Key::Enter, page_lines)).log_query == app.log_query + text
        }),
{
    let opened = app.after_event(pressed(Key::Char('/'), page_lines));
    lemma_search_typing(opened, app.log_query, events, text, page_lines);
    let typed = opened.after_events(events);
    let entered = AppView {
        log_query: app.log_query + text,
        log_search_input: None,
        log_match_indices: Map::empty(),
        ..typed
    };
    match typed.selected_task_id() {
        Some(task) => {
            assert(entered.focused(task).log_query == entered.log_query);
            assert(entered.focused(task).log_search_input == entered.log_search_input);
        },
        None => {},
    }
}

/// Law: with no search being typed, Tab moves to the next page and BackTab back to where it
/// was; three Tabs come round to the same page.
pub proof fn lemma_tab_keys_round_trip(app: AppView, page_lines: usize)
    requires
        app.log_search_input is None,
    ensures
        ({
            let once = app.after_event(pressed(Key::Tab, page_lines));
            let twice = once.after_event(pressed(Key::Tab, page_lines));
            &&& once.tab == app.tab.following()
            &&& once.after_event(pressed(Key::BackTab, page_lines)).tab == app.tab
            &&& twice.after_event(pressed(Key::Tab, page_lines)).tab == app.tab
        }),
{
    lemma_tab_cycle(app.tab);
}

/// Law: with no search being typed, `s`, `x` and `r` request starting, stopping and
/// restarting the project when control is allowed, and request nothing otherwise.
pub proof fn lemma_project_lifecycle_keys(app: AppView, page_lines: usize)
    requires
        app.log_search_input is None,
    ensures
        ({
            let start = app.key_handled(Key::Char('s'), page_lines).0;
            let stop = app.key_handled(Key::Char('x'), page_lines).0;
            let restart = app.key_handled(Key::Char('r'), page_lines).0;
            &&& app.control_allowed ==> start.pending_action == Some(ServiceActionDto::Start)
                && stop.pending_action == Some(ServiceActionDto::Stop) && restart.pending_action
                == Some(ServiceActionDto::Restart)
            &&& !app.control_allowed ==> start.pending_action == app.pending_action
                && stop.pending_action == app.pending_action && restart.pending_action
                == app.pending_action
        }),
{
}

/// Law: on the log page, `n` chooses the next match of the selected task, wrapping after the
/// last, and `N` then comes back to the match chosen before.
pub proof fn lemma_match_steps(app: AppView, task: Seq<char>, page_lines: usize)
    requires
        app.log_search_input is None,
        app.tab == ActiveTab::Logs,
        app.selected_task_id() == Some(task),
        app.matches_of(task).len() > 0,
        0 <= app.match_choice(task) < app.matches_of(task).len(),
        app.matches_of(task).len() <= usize::MAX,
    ensures
        ({
            let count = app.matches_of(task).len() as int;
            let next = app.key_handled(Key::Char('n'), page_lines).0;
            let back = next.key_handled(Key::Char('N'), page_lines).0;
            &&& next.match_choice(task) == (if app.match_choice(task) + 1 == count {
                0
            } else {
                app.match_choice(task) + 1
            })
            &&& back.match_choice(task) == app.match_choice(task)
        }),
{
    let prepared = app.without_clear_confirmation();
    assert(prepared.matches_of(task) == app.matches_of(task));
    let count = app.matches_of(task).len() as int;
    let current = app.match_choice(task);
    let stepped = AppView {
        log_match_indices: prepared.log_match_indices.insert(task, ((current + 1) % count) as usize),
        ..prepared
    };
    assert(stepped.matches_of(task) == app.matches_of(task));
    let next = app.key_handled(Key::Char('n'), page_lines).0;
    assert(next == stepped.focused(task));
    assert(next.matches_of(task) == app.matches_of(task));
    assert(next.selected_task_id() == Some(task));
    let stepped_index = if current + 1 == count {
        0
    } else {
        current + 1
    };
    assert((current + 1) % count == stepped_index) by (nonlinear_arith)
        requires
            0 <= current < count,
            stepped_index == (if current + 1 == count {
                0
            } else {
                current + 1
            }),
    ;
    assert(stepped.match_choice(task) == stepped_index);
    assert(next.match_choice(task) == stepped_index);
    let again = next.without_clear_confirmation();
    assert(again.matches_of(task) == app.matches_of(task));
    assert(again.selected_task_id() == Some(task));
    assert(again.match_choice(task) == stepped_index);
    let previous = if stepped_index == 0 {
        count - 1
    } else {
        stepped_index - 1
    };
    assert(previous == current);
    let back_stepped = AppView {
        log_match_indices: again.log_match_indices.insert(task, previous as usize),
        ..again
    };
    assert(back_stepped.matches_of(task) == app.matches_of(task));
    assert(back_stepped.match_choice(task) == current);
    let back = next.key_handled(Key::Char('N'), page_lines).0;
    assert(back == back_stepped.focused(task));
}

} // verus!
