//! Interaction state of the overview of all services hosted by the center.

use vstd::prelude::*;

use crate::app_horizontal::widest;
use crate::input::{Key, KeyPress, MouseKind};
use crate::overview_collection::{
    aggregate_resources, kept_services, normalized_query, ordered_services, resource_totals,
    visible_services, OverviewSort, ServiceModel,
};
use crate::protocol::{copy_services, same_services, ResourceUsageDto, ServiceViewDto};
use crate::text::{
    append_text, chars_of, copy_optional_text, push_char, same_optional_text, same_text,
    without_last_char,
};
use crate::text_view::{duration_nanos, max_int, min_int, sat_sub, HorizontalScroll, ScrollView};
use std::time::Duration;

verus! {

/// Management actions the overview can request for a service.
#[derive(Clone, Copy, Debug, PartialEq, Eq, Structural)]
pub enum OverviewAction {
    /// Start the service.
    Start,
    /// Stop the service.
    Stop,
    /// Restart the service.
    Restart,
    /// Remove the service's registration.
    Remove,
}

impl DeepView for OverviewAction {
    type V = OverviewAction;

    open spec fn deep_view(&self) -> OverviewAction {
        *self
    }
}

/// Where to go after leaving the overview.
#[derive(Clone, Debug)]
pub enum OverviewExit {
    /// Leave Procora.
    Quit,
    /// Open the page of the named service.
    OpenService(String),
    /// Open the wizard for a new hosted service.
    CreateService,
}

/// Where to go after leaving the overview, as a mathematical value.
pub ghost enum ExitModel {
    Quit,
    OpenService(Seq<char>),
    CreateService,
}

impl DeepView for OverviewExit {
    type V = ExitModel;

    open spec fn deep_view(&self) -> ExitModel {
        match self {
            OverviewExit::Quit => ExitModel::Quit,
            OverviewExit::OpenService(name) => ExitModel::OpenService(name@),
            OverviewExit::CreateService => ExitModel::CreateService,
        }
    }
}

/// Whether two optional exits are equal.
fn same_exit(left: &Option<OverviewExit>, right: &Option<OverviewExit>) -> (result: bool)
    ensures
        result == (left.deep_view() == right.deep_view()),
{
    match (left, right) {
        (None, None) => true,
        (Some(OverviewExit::Quit), Some(OverviewExit::Quit)) => true,
        (Some(OverviewExit::CreateService), Some(OverviewExit::CreateService)) => true,
        (Some(OverviewExit::OpenService(left)), Some(OverviewExit::OpenService(right))) => same_text(
            left,
            right,
        ),
        _ => false,
    }
}

/// A copy of an optional exit.
fn copy_exit(exit: &Option<OverviewExit>) -> (result: Option<OverviewExit>)
    ensures
        result.deep_view() == exit.deep_view(),
{
    match exit {
        None => None,
        Some(OverviewExit::Quit) => Some(OverviewExit::Quit),
        Some(OverviewExit::CreateService) => Some(OverviewExit::CreateService),
        Some(OverviewExit::OpenService(name)) => Some(OverviewExit::OpenService(name.clone())),
    }
}

/// Whether two optional requested actions are equal.
fn same_request(
    left: &Option<(String, OverviewAction)>,
    right: &Option<(String, OverviewAction)>,
) -> (result: bool)
    ensures
        result == (left.deep_view() == right.deep_view()),
{
    match (left, right) {
        (None, None) => true,
        (Some(left), Some(right)) => same_text(&left.0, &right.0) && left.1 == right.1,
        _ => false,
    }
}

/// A copy of an optional requested action.
fn copy_request(request: &Option<(String, OverviewAction)>) -> (result: Option<(String, OverviewAction)>)
    ensures
        result.deep_view() == request.deep_view(),
{
    match request {
        None => None,
        Some(request) => Some((request.0.clone(), request.1)),
    }
}

/// Feedback asking to press `d` again before a service is removed.
pub open spec fn remove_prompt(name: Seq<char>) -> Seq<char> {
    "再次按 d 确认移除服务 `"@ + name + "`（不会删除目录）"@
}

/// Longest of a service's name, root, configuration path and message, in characters.
pub open spec fn service_extent(service: ServiceModel) -> int {
    max_int(
        max_int(max_int(service.0.len() as int, service.1.len() as int), service.2.len() as int),
        match service.4 {
            Some(message) => message.len() as int,
            None => 0,
        },
    )
}

/// Position of the first service with the given name at or after `start`; -1 when none.
pub open spec fn name_position(items: Seq<ServiceModel>, name: Seq<char>, start: int) -> int
    decreases items.len() - start,
{
    if start < 0 || start >= items.len() {
        -1
    } else if items[start].0 == name {
        start
    } else {
        name_position(items, name, start + 1)
    }
}

/// Lemma: a found position lies within the list.
proof fn lemma_name_position_bounds(items: Seq<ServiceModel>, name: Seq<char>, start: int)
    ensures
        -1 <= name_position(items, name, start) < items.len(),
        name_position(items, name, start) >= 0 ==> items[name_position(items, name, start)].0 == name,
    decreases items.len() - start,
{
    if 0 <= start < items.len() && items[start].0 != name {
        lemma_name_position_bounds(items, name, start + 1);
    }
}

/// Abstract state of the overview.
pub ghost struct OverviewView {
    pub services: Seq<ServiceModel>,
    pub visible: Seq<ServiceModel>,
    pub selected: int,
    pub exit: Option<ExitModel>,
    pub pending_action: Option<(Seq<char>, OverviewAction)>,
    pub remove_confirmation: Option<Seq<char>>,
    pub feedback: Option<Seq<char>>,
    pub control_allowed: bool,
    pub plain_mode: bool,
    pub filter_query: Seq<char>,
    pub filter_input: Option<Seq<char>>,
    pub filter_before_input: Seq<char>,
    pub sort: OverviewSort,
    pub descending: bool,
    pub scroll: ScrollView,
}

impl OverviewView {
    /// The services the current filter and order list.
    pub open spec fn listed(self) -> Seq<ServiceModel> {
        ordered_services(
            kept_services(self.services, normalized_query(self.filter_query)),
            self.sort,
            self.descending,
        )
    }

    /// The visible list matches filter and order, and the selection points into it.
    pub open spec fn valid(self) -> bool {
        &&& self.visible == self.listed()
        &&& 0 <= self.selected
        &&& self.selected == 0 || self.selected < self.visible.len()
    }

    /// The selected service, when the list has one there.
    pub open spec fn selected_service(self) -> Option<ServiceModel> {
        if 0 <= self.selected < self.visible.len() {
            Some(self.visible[self.selected])
        } else {
            None
        }
    }

    /// The state with the list rebuilt for the current filter and order, keeping the service
    /// named `name` selected when it is still listed.
    pub open spec fn rebuilt(self, name: Option<Seq<char>>) -> OverviewView {
        let visible = self.listed();
        let found = match name {
            Some(name) => name_position(visible, name, 0),
            None => -1,
        };
        OverviewView {
            visible,
            selected: if found >= 0 {
                found
            } else {
                min_int(self.selected, sat_sub(visible.len() as int, 1))
            },
            ..self
        }
    }

    /// The state with an unconfirmed removal and its feedback dropped.
    pub open spec fn without_remove_confirmation(self) -> OverviewView {
        if self.remove_confirmation is Some {
            OverviewView { remove_confirmation: None, feedback: None, ..self }
        } else {
            self
        }
    }

    /// The state after selecting the next service, wrapping around.
    pub open spec fn selected_next(self) -> OverviewView {
        if self.visible.len() > 0 {
            OverviewView {
                selected: (self.selected + 1) % (self.visible.len() as int),
                scroll: self.scroll.reset(),
                ..self
            }
        } else {
            self
        }
    }

    /// The state after selecting the previous service, wrapping around.
    pub open spec fn selected_previous(self) -> OverviewView {
        if self.visible.len() > 0 {
            OverviewView {
                selected: if self.selected > 0 {
                    self.selected - 1
                } else {
                    self.visible.len() - 1
                },
                scroll: self.scroll.reset(),
                ..self
            }
        } else {
            self
        }
    }

    /// The state after one manual horizontal move within the selected service's texts.
    pub open spec fn moved_horizontally(self, forward: bool) -> OverviewView {
        let longest = match self.selected_service() {
            Some(service) => service_extent(service),
            None => 0,
        };
        OverviewView { scroll: self.scroll.moved(forward, sat_sub(longest, 1)), ..self }
    }

    /// The state after `elapsed` nanoseconds of automatic scrolling, and whether to redraw.
    pub open spec fn auto_advanced(self, elapsed: int) -> (OverviewView, bool) {
        let longest = widest(self.visible.map_values(|service: ServiceModel| service_extent(service)));
        let (scroll, redraw) = self.scroll.advanced(elapsed, sat_sub(longest, 1));
        (OverviewView { scroll, ..self }, redraw)
    }

    /// The state after requesting `action` for the selected service.
    pub open spec fn queued(self, action: OverviewAction) -> OverviewView {
        OverviewView {
            pending_action: match self.selected_service() {
                Some(service) => Some((service.0, action)),
                None => None,
            },
            ..self
        }
    }

    /// The state after a `d`: the first asks for confirmation, the second requests removal.
    pub open spec fn removal_requested(self) -> OverviewView {
        match self.selected_service() {
            None => self,
            Some(service) => if self.remove_confirmation == Some(service.0) {
                OverviewView {
                    remove_confirmation: None,
                    pending_action: Some((service.0, OverviewAction::Remove)),
                    ..self
                }
            } else {
                OverviewView {
                    feedback: Some(remove_prompt(service.0)),
                    remove_confirmation: Some(service.0),
                    ..self
                }
            },
        }
    }

    /// The state after the action bound to `key`, before the list is rebuilt.
    pub open spec fn key_applied(self, key: Key) -> OverviewView {
        if key == Key::Char('q') || key == Key::Esc {
            OverviewView { exit: Some(ExitModel::Quit), ..self }
        } else if key == Key::Enter {
            OverviewView {
                exit: match self.selected_service() {
                    Some(service) => Some(ExitModel::OpenService(service.0)),
                    None => None,
                },
                ..self
            }
        } else if key == Key::Char('n') && self.control_allowed {
            OverviewView { exit: Some(ExitModel::CreateService), ..self }
        } else if key == Key::Down || key == Key::Char('j') {
            self.selected_next()
        } else if key == Key::Up || key == Key::Char('k') {
            self.selected_previous()
        } else if key == Key::Left {
            self.moved_horizontally(false)
        } else if key == Key::Right {
            self.moved_horizontally(true)
        } else if key == Key::F(3) {
            OverviewView {
                scroll: ScrollView { auto_on: !self.scroll.auto_on, ..self.scroll.reset() },
                ..self
            }
        } else if key == Key::Char('/') {
            OverviewView {
                filter_before_input: self.filter_query,
                filter_input: Some(self.filter_query),
                ..self
            }
        } else if key == Key::Char('o') {
            OverviewView {
                sort: self.sort.following(),
                descending: self.sort.following().descending_by_default(),
                ..self
            }
        } else if key == Key::Char('O') {
            OverviewView { descending: !self.descending, ..self }
        } else if key == Key::Char('s') && self.control_allowed {
            self.queued(OverviewAction::Start)
        } else if key == Key::Char('x') && self.control_allowed {
            self.queued(OverviewAction::Stop)
        } else if key == Key::Char('r') && self.control_allowed {
            self.queued(OverviewAction::Restart)
        } else if key == Key::Char('d') && self.control_allowed {
            self.removal_requested()
        } else {
            self
        }
    }

    /// The state after one key typed into the filter, the list following every change.
    pub open spec fn filter_key(self, key: Key) -> OverviewView {
        let edited = if key == Key::Esc {
            OverviewView { filter_query: self.filter_before_input, filter_input: None, ..self }
        } else if key == Key::Enter {
            OverviewView { filter_input: None, ..self }
        } else {
            match (key, self.filter_input) {
                (Key::Backspace, Some(input)) => {
                    let shorter = if input.len() > 0 {
                        input.drop_last()
                    } else {
                        input
                    };
                    OverviewView { filter_input: Some(shorter), filter_query: shorter, ..self }
                },
                (Key::Char(character), Some(input)) => OverviewView {
                    filter_input: Some(input.push(character)),
                    filter_query: input.push(character),
                    ..self
                },
                _ => self,
            }
        };
        let rebuilt = edited.rebuilt(None);
        OverviewView { scroll: rebuilt.scroll.reset(), ..rebuilt }
    }

    /// The state after one key on the overview, and whether anything changed.
    pub open spec fn key_handled(self, key: Key) -> (OverviewView, bool) {
        let next = if self.filter_input is Some {
            self.filter_key(key)
        } else {
            let prepared = if key == Key::Char('d') {
                self
            } else {
                self.without_remove_confirmation()
            };
            let applied = prepared.key_applied(key);
            if key == Key::Char('o') || key == Key::Char('O') {
                let rebuilt = applied.rebuilt(
                    match applied.selected_service() {
                        Some(service) => Some(service.0),
                        None => None,
                    },
                );
                OverviewView { scroll: rebuilt.scroll.reset(), ..rebuilt }
            } else {
                applied
            }
        };
        (next, next != self)
    }

    /// The state after a key press, Control-C quitting, and whether anything changed.
    pub open spec fn key_press_handled(self, key: KeyPress) -> (OverviewView, bool) {
        if key.code == Key::Char('c') && key.control {
            (OverviewView { exit: Some(ExitModel::Quit), ..self }, self.exit != Some(ExitModel::Quit))
        } else {
            self.key_handled(key.code)
        }
    }

    /// The state after a mouse event, and whether anything changed.
    pub open spec fn mouse_handled(self, mouse: MouseKind) -> (OverviewView, bool) {
        let cancelled = self.without_remove_confirmation();
        let next = if mouse == MouseKind::ScrollUp {
            cancelled.selected_previous()
        } else if mouse == MouseKind::ScrollDown {
            cancelled.selected_next()
        } else if mouse == MouseKind::ScrollLeft {
            cancelled.moved_horizontally(false)
        } else if mouse == MouseKind::ScrollRight {
            cancelled.moved_horizontally(true)
        } else {
            cancelled
        };
        (
            next,
            self.remove_confirmation is Some || (next.selected, next.scroll) != (
                self.selected,
                self.scroll,
            ),
        )
    }
}

/// Interaction state of the overview of all services hosted by the center.
pub struct OverviewApp {
    services: Vec<ServiceViewDto>,
    visible_services: Vec<ServiceViewDto>,
    selected: usize,
    exit: Option<OverviewExit>,
    pending_action: Option<(String, OverviewAction)>,
    remove_confirmation: Option<String>,
    feedback: Option<String>,
    control_allowed: bool,
    plain_mode: bool,
    filter_query: String,
    filter_input: Option<String>,
    filter_before_input: String,
    sort: OverviewSort,
    sort_descending: bool,
    horizontal_scroll: HorizontalScroll,
}

impl View for OverviewApp {
    type V = OverviewView;

    closed spec fn view(&self) -> OverviewView {
        OverviewView {
            services: self.services.deep_view(),
            visible: self.visible_services.deep_view(),
            selected: self.selected as int,
            exit: self.exit.deep_view(),
            pending_action: self.pending_action.deep_view(),
            remove_confirmation: self.remove_confirmation.deep_view(),
            feedback: self.feedback.deep_view(),
            control_allowed: self.control_allowed,
            plain_mode: self.plain_mode,
            filter_query: self.filter_query@,
            filter_input: self.filter_input.deep_view(),
            filter_before_input: self.filter_before_input@,
            sort: self.sort,
            descending: self.sort_descending,
            scroll: self.horizontal_scroll@,
        }
    }
}

impl OverviewApp {
    /// Overview of the given services, ordered by name, nothing filtered.
    pub fn new(services: Vec<ServiceViewDto>, plain_mode: bool) -> (result: OverviewApp)
        ensures
            result@.valid(),
            result@ == (OverviewView {
                services: services.deep_view(),
                visible: ordered_services(services.deep_view(), OverviewSort::Name, false),
                selected: 0,
                exit: None,
                pending_action: None,
                remove_confirmation: None,
                feedback: None,
                control_allowed: false,
                plain_mode,
                filter_query: Seq::empty(),
                filter_input: None,
                filter_before_input: Seq::empty(),
                sort: OverviewSort::Name,
                descending: false,
                scroll: ScrollView { manual: 0, auto_on: false, automatic: 0, remainder: 0, freeze: 0 },
            }),
    {
        let mut app = OverviewApp {
            services,
            visible_services: Vec::new(),
            selected: 0,
            exit: None,
            pending_action: None,
            remove_confirmation: None,
            feedback: None,
            control_allowed: false,
            plain_mode,
            filter_query: String::new(),
            filter_input: None,
            filter_before_input: String::new(),
            sort: OverviewSort::Name,
            sort_descending: false,
            horizontal_scroll: HorizontalScroll::new(),
        };
        proof {
            crate::overview_collection::lemma_empty_query_keeps_all(app.services.deep_view());
        }
        app.rebuild_visible(None);
        app
    }

    /// Rebuilds the list for the current filter and order, keeping the named service
    /// selected when it is still listed.
    fn rebuild_visible(&mut self, selected_name: Option<String>)
        ensures
            final(self)@ == old(self)@.rebuilt(selected_name.deep_view()),
            final(self)@.valid(),
    {
        self.visible_services = visible_services(
            &self.services,
            self.filter_query.as_str(),
            self.sort,
            self.sort_descending,
        );
        let ghost visible = self.visible_services.deep_view();
        let mut found: Option<usize> = None;
        if let Some(name) = &selected_name {
            let mut index: usize = 0;
            while index < self.visible_services.len()
                invariant_except_break
                    found is None,
                invariant
                    index <= visible.len(),
                    visible == self.visible_services.deep_view(),
                    name_position(visible, name@, index as int) == name_position(visible, name@, 0),
                ensures
                    match found {
                        Some(position) => position == name_position(visible, name@, 0),
                        None => name_position(visible, name@, 0) == -1,
                    },
                decreases visible.len() - index,
            {
                if same_text(&self.visible_services[index].name, name) {
                    found = Some(index);
                    break;
                }
                index += 1;
            }
        }
        proof {
            if let Some(name) = selected_name {
                lemma_name_position_bounds(visible, name@, 0);
            }
        }
        self.selected = match found {
            Some(position) => position,
            None => {
                let last = self.visible_services.len().saturating_sub(1);
                if self.selected < last {
                    self.selected
                } else {
                    last
                }
            },
        };
    }
}

/// Longest of a service's name, root, configuration path and message, in characters.
fn service_span(service: &ServiceViewDto) -> (result: usize)
    ensures
        result == service_extent(service.deep_view()),
{
    let name = chars_of(service.name.as_str()).len();
    let root = chars_of(service.root.as_str()).len();
    let config = chars_of(service.config_path.as_str()).len();
    let message = match &service.message {
        Some(message) => chars_of(message.as_str()).len(),
        None => 0,
    };
    let mut result = if name > root {
        name
    } else {
        root
    };
    if config > result {
        result = config;
    }
    if message > result {
        result = message;
    }
    result
}

impl OverviewApp {
    /// A copy of the whole state.
    fn copy(&self) -> (result: OverviewApp)
        ensures
            result@ == self@,
    {
        OverviewApp {
            services: copy_services(&self.services),
            visible_services: copy_services(&self.visible_services),
            selected: self.selected,
            exit: copy_exit(&self.exit),
            pending_action: copy_request(&self.pending_action),
            remove_confirmation: copy_optional_text(&self.remove_confirmation),
            feedback: copy_optional_text(&self.feedback),
            control_allowed: self.control_allowed,
            plain_mode: self.plain_mode,
            filter_query: self.filter_query.clone(),
            filter_input: copy_optional_text(&self.filter_input),
            filter_before_input: self.filter_before_input.clone(),
            sort: self.sort,
            sort_descending: self.sort_descending,
            horizontal_scroll: self.horizontal_scroll,
        }
    }

    /// Whether two states are equal.
    fn same(&self, other: &OverviewApp) -> (result: bool)
        ensures
            result == (self@ == other@),
    {
        proof {
            self.horizontal_scroll.lemma_view(other.horizontal_scroll);
        }
        same_services(&self.services, &other.services) && same_services(
            &self.visible_services,
            &other.visible_services,
        ) && self.selected == other.selected && same_exit(&self.exit, &other.exit) && same_request(
            &self.pending_action,
            &other.pending_action,
        ) && same_optional_text(&self.remove_confirmation, &other.remove_confirmation)
            && same_optional_text(&self.feedback, &other.feedback) && self.control_allowed
            == other.control_allowed && self.plain_mode == other.plain_mode && same_text(
            &self.filter_query,
            &other.filter_query,
        ) && same_optional_text(&self.filter_input, &other.filter_input) && same_text(
            &self.filter_before_input,
            &other.filter_before_input,
        ) && self.sort == other.sort && self.sort_descending == other.sort_descending
            && self.horizontal_scroll == other.horizontal_scroll
    }

    /// Name of the selected service, copied.
    fn selected_name(&self) -> (result: Option<String>)
        ensures
            result.deep_view() == (match self@.selected_service() {
                Some(service) => Some(service.0),
                None => None,
            }),
    {
        match self.selected_service() {
            Some(service) => Some(service.name.clone()),
            None => None,
        }
    }

    /// Handles one key; returns whether the overview changed.
    pub fn handle_key(&mut self, key: Key) -> (result: bool)
        requires
            old(self)@.valid(),
        ensures
            (final(self)@, result) == old(self)@.key_handled(key),
            final(self)@.valid(),
    {
        if self.filter_input.is_some() {
            return self.handle_filter_input(key);
        }
        let previous = self.copy();
        if key != Key::Char('d') {
            self.cancel_remove_confirmation();
        }
        self.apply_key(key);
        if key == Key::Char('o') || key == Key::Char('O') {
            let selected_name = self.selected_name();
            self.rebuild_visible(selected_name);
            self.horizontal_scroll.reset_position();
        }
        !self.same(&previous)
    }

    /// Performs the action bound to a key.
    fn apply_key(&mut self, key: Key)
        requires
            old(self)@.valid(),
        ensures
            final(self)@ == old(self)@.key_applied(key),
            key != Key::Char('o') && key != Key::Char('O') ==> final(self)@.valid(),
    {
        if key == Key::Char('q') || key == Key::Esc {
            self.exit = Some(OverviewExit::Quit);
        } else if key == Key::Enter {
            self.exit = match self.selected_service() {
                Some(service) => Some(OverviewExit::OpenService(service.name.clone())),
                None => None,
            };
        } else if key == Key::Char('n') && self.control_allowed {
            self.exit = Some(OverviewExit::CreateService);
        } else if key == Key::Down || key == Key::Char('j') {
            self.select_next();
        } else if key == Key::Up || key == Key::Char('k') {
            self.select_previous();
        } else if key == Key::Left {
            self.scroll_horizontal(false);
        } else if key == Key::Right {
            self.scroll_horizontal(true);
        } else if key == Key::F(3) {
            self.horizontal_scroll.toggle_auto();
        } else if key == Key::Char('/') {
            self.begin_filter_input();
        } else if key == Key::Char('o') {
            self.next_sort();
        } else if key == Key::Char('O') {
            self.sort_descending = !self.sort_descending;
        } else if key == Key::Char('s') && self.control_allowed {
            self.queue_action(OverviewAction::Start);
        } else if key == Key::Char('x') && self.control_allowed {
            self.queue_action(OverviewAction::Stop);
        } else if key == Key::Char('r') && self.control_allowed {
            self.queue_action(OverviewAction::Restart);
        } else if key == Key::Char('d') && self.control_allowed {
            self.confirm_remove();
        }
    }

    /// Handles a key press; Control-C always quits.
    pub fn handle_key_event(&mut self, key: KeyPress) -> (result: bool)
        requires
            old(self)@.valid(),
        ensures
            (final(self)@, result) == old(self)@.key_press_handled(key),
            final(self)@.valid(),
    {
        if key.code == Key::Char('c') && key.control {
            let changed = match &self.exit {
                Some(OverviewExit::Quit) => false,
                _ => true,
            };
            self.exit = Some(OverviewExit::Quit);
            changed
        } else {
            self.handle_key(key.code)
        }
    }

    /// Handles the mouse wheel: selection and horizontal scrolling.
    pub fn handle_mouse(&mut self, mouse: MouseKind) -> (result: bool)
        requires
            old(self)@.valid(),
        ensures
            (final(self)@, result) == old(self)@.mouse_handled(mouse),
            final(self)@.valid(),
    {
        let confirmation_cancelled = self.remove_confirmation.is_some();
        let previous_selected = self.selected;
        let previous_scroll = self.horizontal_scroll;
        self.cancel_remove_confirmation();
        if mouse == MouseKind::ScrollUp {
            self.select_previous();
        } else if mouse == MouseKind::ScrollDown {
            self.select_next();
        } else if mouse == MouseKind::ScrollLeft {
            self.scroll_horizontal(false);
        } else if mouse == MouseKind::ScrollRight {
            self.scroll_horizontal(true);
        }
        proof {
            previous_scroll.lemma_view(self.horizontal_scroll);
        }
        confirmation_cancelled || self.selected != previous_selected || self.horizontal_scroll
            != previous_scroll
    }

    /// Replaces the services, keeping the selected service selected when it is still listed;
    /// returns whether anything changed.
    pub fn replace_services(&mut self, services: Vec<ServiceViewDto>) -> (result: bool)
        requires
            old(self)@.valid(),
        ensures
            result == (old(self)@.services != services.deep_view()),
            final(self)@ == (if result {
                OverviewView { services: services.deep_view(), ..old(self)@ }.rebuilt(
                    match old(self)@.selected_service() {
                        Some(service) => Some(service.0),
                        None => None,
                    },
                )
            } else {
                old(self)@
            }),
            final(self)@.valid(),
    {
        if same_services(&self.services, &services) {
            return false;
        }
        let selected_name = self.selected_name();
        self.services = services;
        self.rebuild_visible(selected_name);
        true
    }

    /// Takes the pending navigation.
    pub fn take_exit(&mut self) -> (result: Option<OverviewExit>)
        ensures
            result.deep_view() == old(self)@.exit,
            final(self)@ == (OverviewView { exit: None, ..old(self)@ }),
    {
        self.exit.take()
    }

    /// Takes the pending management action and the name of its service.
    pub fn take_pending_action(&mut self) -> (result: Option<(String, OverviewAction)>)
        ensures
            result.deep_view() == old(self)@.pending_action,
            final(self)@ == (OverviewView { pending_action: None, ..old(self)@ }),
    {
        self.pending_action.take()
    }

    /// Shows the result of the latest operation; returns whether it changed.
    pub fn set_feedback(&mut self, feedback: String) -> (result: bool)
        ensures
            result == (old(self)@.feedback != Some(feedback@)),
            final(self)@ == (OverviewView { feedback: Some(feedback@), ..old(self)@ }),
    {
        if let Some(current) = &self.feedback {
            if same_text(current, &feedback) {
                return false;
            }
        }
        self.feedback = Some(feedback);
        true
    }

    /// Advances automatic scrolling of folded texts; returns whether a redraw is due.
    pub fn advance_auto_scroll(&mut self, elapsed: Duration) -> (result: bool)
        ensures
            (final(self)@, result) == old(self)@.auto_advanced(duration_nanos(elapsed) as int),
    {
        let ghost extents = self@.visible.map_values(|service: ServiceModel| service_extent(service));
        let mut longest: usize = 0;
        let mut index: usize = 0;
        while index < self.visible_services.len()
            invariant
                index <= self.visible_services@.len(),
                extents == self@.visible.map_values(|service: ServiceModel| service_extent(service)),
                longest == widest(extents.take(index as int)),
            decreases self.visible_services@.len() - index,
        {
            assert(extents.take(index + 1).drop_last() == extents.take(index as int));
            let extent = service_span(&self.visible_services[index]);
            if extent > longest {
                longest = extent;
            }
            index += 1;
        }
        assert(extents.take(extents.len() as int) == extents);
        self.horizontal_scroll.advance(elapsed, longest.saturating_sub(1))
    }

    /// Sets whether this session may control services.
    pub fn set_control_allowed(&mut self, allowed: bool)
        ensures
            final(self)@ == (OverviewView { control_allowed: allowed, ..old(self)@ }),
    {
        self.control_allowed = allowed;
    }

    /// Sets plain text display for limited terminals.
    pub fn set_plain_mode(&mut self, plain: bool)
        ensures
            final(self)@ == (OverviewView { plain_mode: plain, ..old(self)@ }),
    {
        self.plain_mode = plain;
    }

    /// The services listed under the current filter and order.
    pub fn visible_services(&self) -> (result: &[ServiceViewDto])
        ensures
            result@.map_values(|service: ServiceViewDto| service.deep_view()) == self@.visible,
    {
        proof {
            assert(self.visible_services@.map_values(|service: ServiceViewDto| service.deep_view())
                =~= self.visible_services.deep_view());
        }
        self.visible_services.as_slice()
    }

    /// Number of services before filtering.
    pub fn all_service_count(&self) -> (result: usize)
        ensures
            result == self@.services.len(),
    {
        self.services.len()
    }

    /// Resource usage summed over the listed services.
    pub fn visible_resources(&self) -> (result: Option<ResourceUsageDto>)
        ensures
            ({
                let (cpu, memory) = resource_totals(self@.visible);
                if cpu is Some || memory is Some {
                    result == Some(ResourceUsageDto { cpu_tenths_percent: cpu, memory_bytes: memory })
                } else {
                    result is None
                }
            }),
    {
        proof {
            assert(self.visible_services@.map_values(|service: ServiceViewDto| service.deep_view())
                =~= self.visible_services.deep_view());
        }
        aggregate_resources(self.visible_services.as_slice())
    }

    /// Index of the selected service.
    pub fn selected_index(&self) -> (result: usize)
        ensures
            result == self@.selected,
    {
        self.selected
    }

    /// The selected service.
    pub fn selected_service(&self) -> (result: Option<&ServiceViewDto>)
        ensures
            match result {
                Some(service) => self@.selected_service() == Some(service.deep_view()),
                None => self@.selected_service() is None,
            },
    {
        if self.selected < self.visible_services.len() {
            Some(&self.visible_services[self.selected])
        } else {
            None
        }
    }

    /// Latest operation feedback.
    pub fn feedback(&self) -> (result: Option<&str>)
        ensures
            match result {
                Some(text) => self@.feedback == Some(text@),
                None => self@.feedback is None,
            },
    {
        match &self.feedback {
            Some(text) => Some(text.as_str()),
            None => None,
        }
    }

    /// The applied filter text.
    pub fn filter_query(&self) -> (result: &str)
        ensures
            result@ == self@.filter_query,
    {
        self.filter_query.as_str()
    }

    /// The filter text being typed, if any.
    pub fn filter_input(&self) -> (result: Option<&str>)
        ensures
            match result {
                Some(text) => self@.filter_input == Some(text@),
                None => self@.filter_input is None,
            },
    {
        match &self.filter_input {
            Some(text) => Some(text.as_str()),
            None => None,
        }
    }

    /// The sort field.
    pub fn sort(&self) -> (result: OverviewSort)
        ensures
            result == self@.sort,
    {
        self.sort
    }

    /// Whether the order runs from the largest value down.
    pub fn sort_descending(&self) -> (result: bool)
        ensures
            result == self@.descending,
    {
        self.sort_descending
    }

    /// Whether this session may control services.
    pub fn control_allowed(&self) -> (result: bool)
        ensures
            result == self@.control_allowed,
    {
        self.control_allowed
    }

    /// Whether plain text display is on.
    pub fn plain_mode(&self) -> (result: bool)
        ensures
            result == self@.plain_mode,
    {
        self.plain_mode
    }

    /// Offset a folded text should use.
    pub fn text_offset(&self, selected: bool) -> (result: usize)
        ensures
            result == self@.scroll.offset_for(selected),
    {
        self.horizontal_scroll.offset(selected)
    }

    /// Offset of texts that are not highlighted.
    pub fn automatic_text_offset(&self) -> (result: usize)
        ensures
            result == (if self@.scroll.auto_on {
                self@.scroll.automatic
            } else {
                0
            }),
    {
        self.horizontal_scroll.automatic_offset()
    }

    /// Whether automatic horizontal scrolling is on.
    pub fn auto_scroll_enabled(&self) -> (result: bool)
        ensures
            result == self@.scroll.auto_on,
    {
        self.horizontal_scroll.auto_enabled()
    }

    /// Whether the highlighted text is frozen after a manual move.
    pub fn manual_scroll_frozen(&self) -> (result: bool)
        ensures
            result == self@.scroll.frozen(),
    {
        self.horizontal_scroll.manual_frozen()
    }

    /// Selects the next service, wrapping around.
    fn select_next(&mut self)
        requires
            old(self)@.valid(),
        ensures
            final(self)@ == old(self)@.selected_next(),
            final(self)@.valid(),
    {
        if self.visible_services.len() > 0 {
            self.selected = (self.selected + 1) % self.visible_services.len();
            self.horizontal_scroll.reset_position();
        }
    }

    /// Selects the previous service, wrapping around.
    fn select_previous(&mut self)
        requires
            old(self)@.valid(),
        ensures
            final(self)@ == old(self)@.selected_previous(),
            final(self)@.valid(),
    {
        if self.visible_services.len() > 0 {
            self.selected = if self.selected > 0 {
                self.selected - 1
            } else {
                self.visible_services.len() - 1
            };
            self.horizontal_scroll.reset_position();
        }
    }

    /// Moves the highlighted text by one character within the selected service's texts.
    fn scroll_horizontal(&mut self, forward: bool)
        ensures
            final(self)@ == old(self)@.moved_horizontally(forward),
    {
        let longest = match self.selected_service() {
            Some(service) => service_span(service),
            None => 0,
        };
        self.horizontal_scroll.scroll_manual(forward, longest.saturating_sub(1));
    }

    /// Requests an action for the selected service.
    fn queue_action(&mut self, action: OverviewAction)
        ensures
            final(self)@ == old(self)@.queued(action),
    {
        self.pending_action = match self.selected_service() {
            Some(service) => Some((service.name.clone(), action)),
            None => None,
        };
    }

    /// The first `d` asks for confirmation, the second requests the removal.
    fn confirm_remove(&mut self)
        ensures
            final(self)@ == old(self)@.removal_requested(),
    {
        let name = match self.selected_name() {
            Some(name) => name,
            None => return,
        };
        let confirmed = match &self.remove_confirmation {
            Some(pending) => same_text(pending, &name),
            None => false,
        };
        if confirmed {
            self.remove_confirmation = None;
            self.pending_action = Some((name, OverviewAction::Remove));
        } else {
            let mut feedback = "再次按 d 确认移除服务 `".to_owned();
            append_text(&mut feedback, name.as_str());
            append_text(&mut feedback, "`（不会删除目录）");
            self.feedback = Some(feedback);
            self.remove_confirmation = Some(name);
        }
    }

    /// Drops an unconfirmed removal and its feedback.
    fn cancel_remove_confirmation(&mut self)
        ensures
            final(self)@ == old(self)@.without_remove_confirmation(),
    {
        if self.remove_confirmation.take().is_some() {
            self.feedback = None;
        }
    }

    /// Starts typing a filter, remembering the applied one for Esc.
    fn begin_filter_input(&mut self)
        ensures
            final(self)@ == (OverviewView {
                filter_before_input: old(self)@.filter_query,
                filter_input: Some(old(self)@.filter_query),
                ..old(self)@
            }),
    {
        self.filter_before_input = self.filter_query.clone();
        self.filter_input = Some(self.filter_query.clone());
    }

    /// Handles a key typed into the filter and rebuilds the list after every change.
    fn handle_filter_input(&mut self, key: Key) -> (result: bool)
        requires
            old(self)@.valid(),
            old(self)@.filter_input is Some,
        ensures
            (final(self)@, result) == old(self)@.key_handled(key),
            final(self)@.valid(),
    {
        let previous = self.copy();
        if key == Key::Esc {
            self.filter_query = self.filter_before_input.clone();
            self.filter_input = None;
        } else if key == Key::Enter {
            self.filter_input = None;
        } else {
            match key {
                Key::Backspace => {
                    if let Some(input) = &self.filter_input {
                        let shorter = without_last_char(input);
                        self.filter_query = shorter.clone();
                        self.filter_input = Some(shorter);
                    }
                },
                Key::Char(character) => {
                    if let Some(input) = &self.filter_input {
                        let mut longer = input.clone();
                        push_char(&mut longer, character);
                        self.filter_query = longer.clone();
                        self.filter_input = Some(longer);
                    }
                },
                _ => {},
            }
        }
        self.rebuild_visible(None);
        self.horizontal_scroll.reset_position();
        !self.same(&previous)
    }

    /// Switches to the next sort field and its usual direction.
    fn next_sort(&mut self)
        ensures
            final(self)@ == (OverviewView {
                sort: old(self)@.sort.following(),
                descending: old(self)@.sort.following().descending_by_default(),
                ..old(self)@
            }),
    {
        self.sort = self.sort.next();
        self.sort_descending = self.sort.default_descending();
    }
}

/// The sort fields form a cycle of four.
pub proof fn lemma_sort_cycle(sort: OverviewSort)
    ensures
        sort.following().following().following().following() == sort,
{
}

/// Removing a service takes two presses of `d`: the first only asks for confirmation, the
/// second requests the removal of that service.
pub proof fn lemma_removal_needs_confirmation(view: OverviewView)
    requires
        view.valid(),
        view.control_allowed,
        view.visible.len() > 0,
        view.filter_input is None,
        view.remove_confirmation is None,
    ensures
        ({
            let name = view.visible[view.selected].0;
            let first = view.key_handled(Key::Char('d')).0;
            let second = first.key_handled(Key::Char('d')).0;
            &&& first.pending_action == view.pending_action
            &&& first.remove_confirmation == Some(name)
            &&& first.feedback == Some(remove_prompt(name))
            &&& second.pending_action == Some((name, OverviewAction::Remove))
            &&& second.remove_confirmation is None
        }),
{
}

/// Esc while typing a filter brings back the filter that applied before typing started.
pub proof fn lemma_filter_escape_restores(view: OverviewView)
    requires
        view.filter_input is Some,
    ensures
        view.key_handled(Key::Esc).0.filter_query == view.filter_before_input,
        view.key_handled(Key::Esc).0.filter_input is None,
{
}

impl OverviewView {
    /// The state after keys in turn.
    pub open spec fn after_keys(self, keys: Seq<Key>) -> OverviewView
        decreases keys.len(),
    {
        if keys.len() == 0 {
            self
        } else {
            self.after_keys(keys.drop_last()).key_handled(keys.last()).0
        }
    }
}

/// Whether keys are the character keys that type a text.
pub open spec fn keys_type(keys: Seq<Key>, text: Seq<char>) -> bool {
    &&& keys.len() == text.len()
    &&& forall|index: int| 0 <= index < text.len() ==> #[trigger] keys[index] == Key::Char(text[index])
}

/// Lemma: typing into the open filter extends it, and after each character the list is
/// filtered by all typed so far.
proof fn lemma_filter_typing(view: OverviewView, input: Seq<char>, keys: Seq<Key>, text: Seq<char>)
    requires
        view.filter_input == Some(input),
        keys_type(keys, text),
    ensures
        ({
            let typed = view.after_keys(keys);
            &&& typed.filter_input == Some(input + text)
            &&& typed.filter_before_input == view.filter_before_input
            &&& typed.services == view.services
            &&& typed.sort == view.sort
            &&& typed.descending == view.descending
            &&& text.len() > 0 ==> typed.filter_query == input + text && typed.visible == typed.listed()
        }),
    decreases text.len(),
{
    if text.len() == 0 {
        assert(input + text =~= input);
    } else {
        let shorter = text.drop_last();
        assert forall|index: int| 0 <= index < shorter.len() implies #[trigger] keys.drop_last()[index]
            == Key::Char(shorter[index]) by {
            assert(keys[index] == Key::Char(text[index]));
        }
        lemma_filter_typing(view, input, keys.drop_last(), shorter);
        assert(keys.last() == keys[text.len() - 1]);
        assert(keys.last() == Key::Char(text.last()));
        assert((input + shorter).push(text.last()) =~= input + text);
    }
}

/// Law: `/` opens the filter with the applied query; each typed character filters the list at
/// once by everything typed so far; Esc then brings back the earlier filter and its list.
pub proof fn lemma_live_filter(view: OverviewView, keys: Seq<Key>, text: Seq<char>)
    requires
        view.filter_input is None,
        keys_type(keys, text),
    ensures
        ({
            let opened = view.key_handled(Key::Char('/')).0;
            let typed = opened.after_keys(keys);
            let escaped = typed.key_handled(Key::Esc).0;
            &&& opened.filter_input == Some(view.filter_query)
            &&& opened.filter_query == view.filter_query
            &&& typed.filter_input == Some(view.filter_query + text)
            &&& text.len() > 0 ==> typed.filter_query == view.filter_query + text
                && typed.visible == typed.listed()
            &&& escaped.filter_input is None
            &&& escaped.filter_query == view.filter_query
            &&& escaped.visible == view.listed()
        }),
{
    let opened = view.key_handled(Key::Char('/')).0;
    lemma_filter_typing(opened, view.filter_query, keys, text);
}

/// Law: with no filter being typed, `q` and Esc ask to quit and Enter asks to open the
/// selected service, if any.
pub proof fn lemma_exit_keys(view: OverviewView)
    requires
        view.filter_input is None,
    ensures
        view.key_handled(Key::Char('q')).0.exit == Some(ExitModel::Quit),
        view.key_handled(Key::Esc).0.exit == Some(ExitModel::Quit),
        view.key_handled(Key::Enter).0.exit == match view.selected_service() {
            Some(service) => Some(ExitModel::OpenService(service.0)),
            None => None,
        },
{
}

/// Law: with control allowed, no filter being typed and a service selected, `s`, `x` and `r`
/// request exactly starting, stopping and restarting that service.
pub proof fn lemma_lifecycle_keys(view: OverviewView)
    requires
        view.filter_input is None,
        view.control_allowed,
        view.selected_service() is Some,
    ensures
        ({
            let name = view.selected_service().unwrap().0;
            &&& view.key_handled(Key::Char('s')).0.pending_action == Some((name, OverviewAction::Start))
            &&& view.key_handled(Key::Char('x')).0.pending_action == Some((name, OverviewAction::Stop))
            &&& view.key_handled(Key::Char('r')).0.pending_action == Some((name, OverviewAction::Restart))
            &&& view.key_handled(Key::Char('n')).0.exit == Some(ExitModel::CreateService)
        }),
{
}

/// Law: without control allowed, `s`, `x`, `r`, `d` and `n` neither request an action nor
/// ask to leave the overview.
pub proof fn lemma_read_only_keys(view: OverviewView)
    requires
        view.filter_input is None,
        !view.control_allowed,
    ensures
        ({
            let start = view.key_handled(Key::Char('s')).0;
            let stop = view.key_handled(Key::Char('x')).0;
            let restart = view.key_handled(Key::Char('r')).0;
            let remove = view.key_handled(Key::Char('d')).0;
            let create = view.key_handled(Key::Char('n')).0;
            &&& start.pending_action == view.pending_action && start.exit == view.exit
            &&& stop.pending_action == view.pending_action && stop.exit == view.exit
            &&& restart.pending_action == view.pending_action && restart.exit == view.exit
            &&& remove == view
            &&& create.pending_action == view.pending_action && create.exit == view.exit
        }),
{
}

/// Law: with no filter being typed, `o` moves through the sort fields name, state, CPU and
/// memory and back to name, sorting CPU and memory from the largest value down and the others
/// from the smallest up; `O` reverses the direction; `j` and `k` move the selection to the
/// next and previous service, wrapping around.
pub proof fn lemma_sort_and_move_keys(view: OverviewView)
    requires
        view.filter_input is None,
        view.visible.len() > 0,
        0 <= view.selected < view.visible.len(),
    ensures
        ({
            let sorted = view.key_handled(Key::Char('o')).0;
            let flipped = view.key_handled(Key::Char('O')).0;
            let down = view.key_handled(Key::Char('j')).0;
            let up = view.key_handled(Key::Char('k')).0;
            &&& view.sort == OverviewSort::Name ==> sorted.sort == OverviewSort::Status && !sorted.descending
            &&& view.sort == OverviewSort::Status ==> sorted.sort == OverviewSort::Cpu && sorted.descending
            &&& view.sort == OverviewSort::Cpu ==> sorted.sort == OverviewSort::Memory && sorted.descending
            &&& view.sort == OverviewSort::Memory ==> sorted.sort == OverviewSort::Name && !sorted.descending
            &&& flipped.sort == view.sort && flipped.descending == !view.descending
            &&& down.selected == (if view.selected + 1 == view.visible.len() {
                0
            } else {
                view.selected + 1
            })
            &&& up.selected == (if view.selected == 0 {
                view.visible.len() - 1
            } else {
                view.selected - 1
            })
        }),
{
    let count = view.visible.len() as int;
    let selected = view.selected;
    assert((selected + 1) % count == (if selected + 1 == count {
        0
    } else {
        selected + 1
    })) by (nonlinear_arith)
        requires
            0 <= selected < count,
    ;
    let prepared = view.without_remove_confirmation();
    assert(prepared.visible == view.visible && prepared.selected == view.selected);
}

} // verus!
