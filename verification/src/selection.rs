//! Reusable choice among a list of options: move, confirm or cancel.

use vstd::prelude::*;

use crate::input::Key;

verus! {

/// One option of a choice: a title, an explanation and the value it stands for.
#[derive(Clone, Debug)]
pub struct SelectionItem<T> {
    label: String,
    description: String,
    value: T,
}

impl<T> SelectionItem<T> {
    /// An option with a title, an explanation and the value it returns.
    pub fn new(label: String, description: String, value: T) -> (result: SelectionItem<T>)
        ensures
            result.title() == label@,
            result.explanation() == description@,
            result.stands_for() == value,
    {
        SelectionItem { label, description, value }
    }

    /// Title of the option.
    pub closed spec fn title(self) -> Seq<char> {
        self.label@
    }

    /// Explanation of the option.
    pub closed spec fn explanation(self) -> Seq<char> {
        self.description@
    }

    /// Value the option stands for.
    pub closed spec fn stands_for(self) -> T {
        self.value
    }

    /// Title of the option.
    pub fn label(&self) -> (result: &str)
        ensures
            result@ == self.title(),
    {
        self.label.as_str()
    }

    /// Explanation of the option.
    pub fn description(&self) -> (result: &str)
        ensures
            result@ == self.explanation(),
    {
        self.description.as_str()
    }
}

/// Outcome of one key in a choice.
#[derive(Clone, Debug, PartialEq, Eq)]
pub enum SelectionEvent<T> {
    /// The choice goes on.
    Pending,
    /// The user confirmed an option.
    Selected(T),
    /// The user cancelled the choice.
    Cancelled,
}

/// A choice with a highlighted option, moved by keys, confirmed or cancelled.
#[derive(Clone, Debug)]
pub struct SelectionState<T> {
    items: Vec<SelectionItem<T>>,
    selected: usize,
}

impl<T: Clone> SelectionState<T> {
    /// The options of the choice.
    pub closed spec fn options(&self) -> Seq<SelectionItem<T>> {
        self.items@
    }

    /// Position of the highlighted option.
    pub closed spec fn position(&self) -> int {
        self.selected as int
    }

    /// The choice has options and highlights one of them.
    pub open spec fn wf(&self) -> bool {
        0 <= self.position() < self.options().len()
    }

    /// A choice among at least one option, the first highlighted.
    pub fn new(items: Vec<SelectionItem<T>>) -> (result: SelectionState<T>)
        requires
            items@.len() > 0,
        ensures
            result.wf(),
            result.options() == items@,
            result.position() == 0,
    {
        SelectionState { items, selected: 0 }
    }

    /// Position of the highlighted option.
    pub fn selected(&self) -> (result: usize)
        ensures
            result == self.position(),
    {
        self.selected
    }

    /// Number of options.
    pub fn len(&self) -> (result: usize)
        ensures
            result == self.options().len(),
    {
        self.items.len()
    }

    /// Whether the choice has no options; never so for a well-formed choice.
    pub fn is_empty(&self) -> (result: bool)
        ensures
            result == (self.options().len() == 0),
    {
        self.items.len() == 0
    }

    /// Up, down, Home and End move the highlight; Enter confirms it; Esc or `q` cancels.
    pub fn handle_key(&mut self, key: Key) -> (result: SelectionEvent<T>)
        requires
            old(self).wf(),
        ensures
            final(self).wf(),
            final(self).options() == old(self).options(),
            final(self).position() == (if key == Key::Up || key == Key::Char('k') {
                if old(self).position() > 0 {
                    old(self).position() - 1
                } else {
                    0
                }
            } else if key == Key::Down || key == Key::Char('j') {
                if old(self).position() + 1 < old(self).options().len() {
                    old(self).position() + 1
                } else {
                    old(self).options().len() - 1
                }
            } else if key == Key::Home {
                0
            } else if key == Key::End {
                old(self).options().len() - 1
            } else {
                old(self).position()
            }),
            key == Key::Enter ==> (result matches SelectionEvent::Selected(value) && cloned::<T>(
                old(self).options()[old(self).position()].stands_for(),
                value,
            )),
            (key == Key::Esc || key == Key::Char('q')) ==> result == SelectionEvent::<T>::Cancelled,
            key != Key::Enter && key != Key::Esc && key != Key::Char('q') ==> result
                == SelectionEvent::<T>::Pending,
    {
        assert(self.selected < self.items@.len());
        if key == Key::Up || key == Key::Char('k') {
            self.selected = if self.selected > 0 {
                self.selected - 1
            } else {
                0
            };
            SelectionEvent::Pending
        } else if key == Key::Down || key == Key::Char('j') {
            self.selected = if self.selected < self.items.len() - 1 {
                self.selected + 1
            } else {
                self.items.len() - 1
            };
            SelectionEvent::Pending
        } else if key == Key::Home {
            self.selected = 0;
            SelectionEvent::Pending
        } else if key == Key::End {
            self.selected = self.items.len() - 1;
            SelectionEvent::Pending
        } else if key == Key::Enter {
            SelectionEvent::Selected(self.items[self.selected].value.clone())
        } else if key == Key::Esc || key == Key::Char('q') {
            SelectionEvent::Cancelled
        } else {
            SelectionEvent::Pending
        }
    }

    /// The options, for drawing.
    pub fn items(&self) -> (result: &[SelectionItem<T>])
        ensures
            result@ == self.options(),
    {
        self.items.as_slice()
    }
}

} // verus!
