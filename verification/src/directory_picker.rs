//! Browsing for a directory inside a dialog: the entries of the current directory, a
//! selection among them, and the portable text a chosen directory is written as.
//!
//! Paths are absolute and given by their components below the root. Reading a directory is
//! left to the caller: a key that changes what is shown answers `PickerEvent::Load`, and the
//! caller hands the names of the subdirectories it found to `refresh`.

use vstd::prelude::*;

use crate::input::Key;
use crate::overview_collection::{lemma_text_order_antisymmetric, text_order, text_rank};
use crate::form_value::{pieces, split_text};
use crate::text::{append_text, ascii_lower_text, chars_of, joined, lower_ascii, trim_chars, trimmed};

verus! {

/// What confirming an entry does.
#[derive(Clone, Debug)]
pub enum EntryAction {
    /// Choose the directory being shown.
    SelectCurrent,
    /// Show the parent directory.
    Parent,
    /// Show the subdirectory of this name.
    Open(String),
}

/// An entry action as a mathematical value.
pub ghost enum ActionModel {
    SelectCurrent,
    Parent,
    Open(Seq<char>),
}

impl DeepView for EntryAction {
    type V = ActionModel;

    open spec fn deep_view(&self) -> ActionModel {
        match self {
            EntryAction::SelectCurrent => ActionModel::SelectCurrent,
            EntryAction::Parent => ActionModel::Parent,
            EntryAction::Open(name) => ActionModel::Open(name@),
        }
    }
}

/// One line of the browser.
#[derive(Clone, Debug)]
pub struct DirectoryEntry {
    /// Text shown.
    pub label: String,
    /// What confirming it does.
    pub action: EntryAction,
}

/// An entry as a mathematical value.
pub type EntryModel = (Seq<char>, ActionModel);

impl DeepView for DirectoryEntry {
    type V = EntryModel;

    open spec fn deep_view(&self) -> EntryModel {
        (self.label@, self.action.deep_view())
    }
}

/// Outcome of a key in the browser.
#[derive(Clone, Debug)]
pub enum PickerEvent {
    /// Keep browsing.
    Continue,
    /// Close the browser without a choice.
    Cancel,
    /// The directory shown changed or is to be read again: list it and call `refresh`.
    Load,
    /// A directory was chosen for a field, written as `value`.
    Selected { field: usize, value: String },
}

/// An event as a mathematical value.
pub ghost enum EventModel {
    Continue,
    Cancel,
    Load,
    Selected { field: int, value: Seq<char> },
}

impl DeepView for PickerEvent {
    type V = EventModel;

    open spec fn deep_view(&self) -> EventModel {
        match self {
            PickerEvent::Continue => EventModel::Continue,
            PickerEvent::Cancel => EventModel::Cancel,
            PickerEvent::Load => EventModel::Load,
            PickerEvent::Selected { field, value } => EventModel::Selected {
                field: *field as int,
                value: value@,
            },
        }
    }
}

/// Order of entry labels: ignoring ASCII case first, then exactly.
pub open spec fn name_order(left: Seq<char>, right: Seq<char>) -> int {
    let folded = text_order(ascii_lower_text(left), ascii_lower_text(right));
    if folded != 0 {
        folded
    } else {
        text_order(left, right)
    }
}

/// Lemma: the label order is antisymmetric.
pub proof fn lemma_name_order_antisymmetric(left: Seq<char>, right: Seq<char>)
    ensures
        name_order(left, right) == -name_order(right, left),
{
    lemma_text_order_antisymmetric(ascii_lower_text(left), ascii_lower_text(right));
    lemma_text_order_antisymmetric(left, right);
}

/// The label order of two labels.
fn name_rank(left: &String, right: &String) -> (result: i8)
    ensures
        result == name_order(left@, right@),
{
    let left_characters = chars_of(left.as_str());
    let right_characters = chars_of(right.as_str());
    let left_folded = lower_ascii(left_characters.as_slice());
    let right_folded = lower_ascii(right_characters.as_slice());
    let folded = text_rank(left_folded.as_slice(), right_folded.as_slice());
    if folded != 0 {
        folded
    } else {
        text_rank(left_characters.as_slice(), right_characters.as_slice())
    }
}

/// Order of subdirectory names: the order of their labels.
pub open spec fn directory_order(left: Seq<char>, right: Seq<char>) -> int {
    name_order(directory_label(left), directory_label(right))
}

/// Where an insertion sort puts `name` among the first `position` names: after the last one
/// that does not come after it.
pub open spec fn label_slot(names: Seq<Seq<char>>, name: Seq<char>, position: int) -> int
    decreases position,
{
    if position > 0 && directory_order(names[position - 1], name) > 0 {
        label_slot(names, name, position - 1)
    } else {
        position
    }
}

/// Subdirectory names in browsing order, each inserted in turn after the last that does not
/// come after it.
pub open spec fn sorted_labels(names: Seq<Seq<char>>) -> Seq<Seq<char>>
    decreases names.len(),
{
    if names.len() == 0 {
        Seq::empty()
    } else {
        let rest = sorted_labels(names.drop_last());
        rest.insert(label_slot(rest, names.last(), rest.len() as int), names.last())
    }
}

/// Whether neighbouring names are in browsing order.
pub open spec fn labels_ordered(names: Seq<Seq<char>>) -> bool {
    forall|index: int|
        0 <= index < names.len() - 1 ==> directory_order(#[trigger] names[index], names[index + 1])
            <= 0
}

/// Lemma: a slot lies after every scanned label that does not come after the new one and
/// before the first that does.
proof fn lemma_label_slot_fits(labels: Seq<Seq<char>>, label: Seq<char>, position: int)
    requires
        0 <= position <= labels.len(),
    ensures
        ({
            let slot = label_slot(labels, label, position);
            &&& 0 <= slot <= position
            &&& slot > 0 ==> directory_order(labels[slot - 1], label) <= 0
            &&& slot < position ==> directory_order(labels[slot], label) > 0
        }),
    decreases position,
{
    if position > 0 && directory_order(labels[position - 1], label) > 0 {
        lemma_label_slot_fits(labels, label, position - 1);
    }
}

/// Law: the browsing order lists every subdirectory as often as it was found, and puts
/// neighbours in order.
pub proof fn lemma_sorted_labels_ordered(labels: Seq<Seq<char>>)
    ensures
        sorted_labels(labels).len() == labels.len(),
        sorted_labels(labels).to_multiset() == labels.to_multiset(),
        labels_ordered(sorted_labels(labels)),
    decreases labels.len(),
{
    if labels.len() == 0 {
        assert(labels =~= sorted_labels(labels));
    } else {
        let rest = sorted_labels(labels.drop_last());
        let label = labels.last();
        lemma_sorted_labels_ordered(labels.drop_last());
        lemma_label_slot_fits(rest, label, rest.len() as int);
        let slot = label_slot(rest, label, rest.len() as int);
        let next = rest.insert(slot, label);
        vstd::seq_lib::to_multiset_insert(rest, slot, label);
        vstd::seq_lib::to_multiset_build(labels.drop_last(), label);
        assert(labels.drop_last().push(label) == labels);
        assert forall|index: int| 0 <= index < next.len() - 1 implies directory_order(
            #[trigger] next[index],
            next[index + 1],
        ) <= 0 by {
            if index + 1 < slot {
                assert(next[index] == rest[index]);
                assert(next[index + 1] == rest[index + 1]);
            } else if index + 1 == slot {
                assert(next[index] == rest[index]);
            } else if index == slot {
                assert(next[index + 1] == rest[index]);
                lemma_name_order_antisymmetric(directory_label(rest[index]), directory_label(label));
            } else {
                assert(next[index] == rest[index - 1]);
                assert(next[index + 1] == rest[index]);
            }
        }
    }
}

/// Label of a subdirectory.
pub open spec fn directory_label(name: Seq<char>) -> Seq<char> {
    "▸ "@ + name + "/"@
}

/// Label of the entry choosing the directory shown.
pub open spec fn select_label() -> Seq<char> {
    "✓ 选择此目录"@
}

/// Label of the entry showing the parent directory.
pub open spec fn parent_label() -> Seq<char> {
    "↰ 返回上级"@
}

/// Message for a directory that could not be read.
pub open spec fn unreadable_message(error: Seq<char>) -> Seq<char> {
    "无法读取目录："@ + error
}

/// Text of an absolute path given by its components.
pub open spec fn path_text(components: Seq<Seq<char>>) -> Seq<char> {
    seq!['/'] + joined(components, seq!['/'])
}

/// Number of leading components two paths share.
pub open spec fn common_length(path: Seq<Seq<char>>, base: Seq<Seq<char>>, from: int) -> int
    decreases path.len() - from,
{
    if from < 0 || from >= path.len() || from >= base.len() || path[from] != base[from] {
        from
    } else {
        common_length(path, base, from + 1)
    }
}

/// Components of `path` relative to `base`: one `..` per base component past the shared
/// ones, then the rest of the path.
pub open spec fn relative_components(path: Seq<Seq<char>>, base: Seq<Seq<char>>) -> Seq<Seq<char>> {
    let common = common_length(path, base, 0);
    Seq::new((base.len() - common) as nat, |index: int| seq!['.', '.']) + path.skip(common)
}

/// Text a chosen directory is written as: relative to the base directory, `.` for the base
/// itself.
pub open spec fn portable_text(path: Seq<Seq<char>>, base: Seq<Seq<char>>) -> Seq<char> {
    let parts = relative_components(path, base);
    if parts.len() == 0 {
        seq!['.']
    } else {
        joined(parts, seq!['/'])
    }
}

/// Lemma: the shared length lies between the start and both lengths, and the components
/// before it agree.
proof fn lemma_common_length(path: Seq<Seq<char>>, base: Seq<Seq<char>>, from: int)
    requires
        0 <= from <= path.len(),
        from <= base.len(),
    ensures
        from <= common_length(path, base, from) <= path.len(),
        common_length(path, base, from) <= base.len(),
        forall|index: int|
            from <= index < common_length(path, base, from) ==> path[index] == base[index],
    decreases path.len() - from,
{
    if from < path.len() && from < base.len() && path[from] == base[from] {
        lemma_common_length(path, base, from + 1);
    }
}

/// Law: a directory chosen inside the base directory is written as the path below the base,
/// and the base itself as `.`.
pub proof fn lemma_portable_inside_base(base: Seq<Seq<char>>, below: Seq<Seq<char>>)
    ensures
        portable_text(base + below, base) == (if below.len() == 0 {
            seq!['.']
        } else {
            joined(below, seq!['/'])
        }),
{
    let path = base + below;
    lemma_common_length(path, base, 0);
    let common = common_length(path, base, 0);
    assert(common == base.len()) by {
        if common < base.len() {
            assert(path[common] == base[common]);
            lemma_common_length_stops(path, base, 0);
        }
    }
    assert(relative_components(path, base) =~= below);
}

/// Lemma: the shared length stops at the end of a path or at the first difference.
proof fn lemma_common_length_stops(path: Seq<Seq<char>>, base: Seq<Seq<char>>, from: int)
    requires
        0 <= from <= path.len(),
        from <= base.len(),
    ensures
        ({
            let common = common_length(path, base, from);
            common == path.len() || common == base.len() || path[common] != base[common]
        }),
    decreases path.len() - from,
{
    if from < path.len() && from < base.len() && path[from] == base[from] {
        lemma_common_length_stops(path, base, from + 1);
    }
}

/// Joins texts with a separator between neighbours.
pub(crate) fn join_texts(parts: &Vec<String>, separator: &str) -> (result: String)
    ensures
        result@ == joined(parts.deep_view(), separator@),
{
    let mut result = String::new();
    let mut index: usize = 0;
    while index < parts.len()
        invariant
            index <= parts@.len(),
            result@ == joined(parts.deep_view().take(index as int), separator@),
        decreases parts@.len() - index,
    {
        let ghost items = parts.deep_view();
        let ghost before = result@;
        if index > 0 {
            append_text(&mut result, separator);
        }
        append_text(&mut result, parts[index].as_str());
        index += 1;
        assert(items.take(index as int).drop_last() =~= items.take(index - 1));
        if index == 1 {
            assert(result@ =~= items.take(1)[0]);
        } else {
            assert(result@ =~= before + separator@ + items.take(index as int).last());
        }
    }
    assert(parts.deep_view().take(parts@.len() as int) =~= parts.deep_view());
    result
}

/// The text a chosen directory is written as, relative to the base directory.
pub fn portable_path(path: &Vec<String>, base: &Vec<String>) -> (result: String)
    ensures
        result@ == portable_text(path.deep_view(), base.deep_view()),
{
    let ghost path_view = path.deep_view();
    let ghost base_view = base.deep_view();
    let mut common: usize = 0;
    while common < path.len() && common < base.len() && crate::text::same_text(
        &path[common],
        &base[common],
    )
        invariant
            common <= path@.len(),
            common <= base@.len(),
            common_length(path_view, base_view, common as int) == common_length(
                path_view,
                base_view,
                0,
            ),
            path_view == path.deep_view(),
            base_view == base.deep_view(),
        decreases path@.len() - common,
    {
        common += 1;
    }
    let mut parts: Vec<String> = Vec::new();
    let mut index = common;
    while index < base.len()
        invariant
            common <= index <= base@.len(),
            parts.deep_view() == Seq::new((index - common) as nat, |k: int| seq!['.', '.']),
        decreases base@.len() - index,
    {
        let ghost before = parts.deep_view();
        let up = "..".to_owned();
        proof {
            reveal_strlit("..");
        }
        assert(up@ =~= seq!['.', '.']);
        parts.push(up);
        assert(parts.deep_view() =~= before.push(seq!['.', '.']));
        index += 1;
        assert(parts.deep_view() =~= Seq::new((index - common) as nat, |k: int| seq!['.', '.']));
    }
    let ghost ups = parts.deep_view();
    let mut index = common;
    while index < path.len()
        invariant
            common <= index <= path@.len(),
            parts.deep_view() == ups + path.deep_view().subrange(common as int, index as int),
        decreases path@.len() - index,
    {
        let ghost before = parts.deep_view();
        let item = path[index].clone();
        parts.push(item);
        assert(parts.deep_view() =~= before.push(item@));
        index += 1;
        assert(parts.deep_view() =~= ups + path.deep_view().subrange(common as int, index as int));
    }
    assert(parts.deep_view() =~= relative_components(path_view, base_view));
    if parts.len() == 0 {
        let mut dot = String::new();
        crate::text::push_char(&mut dot, '.');
        assert(dot@ =~= seq!['.']);
        dot
    } else {
        let slash = "/";
        proof {
            reveal_strlit("/");
        }
        let result = join_texts(&parts, slash);
        assert(slash@ =~= seq!['/']);
        result
    }
}

/// The entries of a directory whose subdirectories are `names`: choosing it, the parent
/// where there is one, then the subdirectories in browsing order.
pub open spec fn listed_entries(current: Seq<Seq<char>>, names: Seq<Seq<char>>) -> Seq<EntryModel> {
    seq![(select_label(), ActionModel::SelectCurrent)] + (if current.len() > 0 {
        seq![(parent_label(), ActionModel::Parent)]
    } else {
        Seq::empty()
    }) + sorted_labels(names).map_values(
        |name: Seq<char>| (directory_label(name), ActionModel::Open(name)),
    )
}

/// Abstract state of the directory browser.
pub ghost struct PickerView {
    pub field: int,
    pub base: Seq<Seq<char>>,
    pub current: Seq<Seq<char>>,
    pub entries: Seq<EntryModel>,
    pub selected: int,
    pub error: Option<Seq<char>>,
}

impl PickerView {
    /// There is an entry and one is selected.
    pub open spec fn valid(self) -> bool {
        &&& self.entries.len() > 0
        &&& 0 <= self.selected < self.entries.len()
    }

    /// The state after reading the current directory, or failing to.
    pub open spec fn refreshed(self, listing: Result<Seq<Seq<char>>, Seq<char>>) -> PickerView {
        let entries = match listing {
            Ok(names) => listed_entries(self.current, names),
            Err(_) => listed_entries(self.current, Seq::empty()),
        };
        PickerView {
            entries,
            error: match listing {
                Ok(_) => None,
                Err(error) => Some(unreadable_message(error)),
            },
            selected: if self.selected < entries.len() {
                self.selected
            } else {
                entries.len() - 1
            },
            ..self
        }
    }

    /// The chosen-directory event for the directory shown.
    pub open spec fn selection(self) -> EventModel {
        EventModel::Selected { field: self.field, value: portable_text(self.current, self.base) }
    }

    /// The state after asking for the parent directory.
    pub open spec fn parent_opened(self) -> PickerView {
        if self.current.len() > 0 {
            PickerView { current: self.current.drop_last(), selected: 0, ..self }
        } else {
            self
        }
    }

    /// What asking for the parent directory answers.
    pub open spec fn parent_event(self) -> EventModel {
        if self.current.len() > 0 {
            EventModel::Load
        } else {
            EventModel::Continue
        }
    }

    /// The state after one key.
    pub open spec fn key_applied(self, code: Key) -> PickerView {
        let last = self.entries.len() - 1;
        match code {
            Key::Up | Key::Char('k') => PickerView {
                selected: if self.selected > 0 {
                    self.selected - 1
                } else {
                    0
                },
                ..self
            },
            Key::Down | Key::Char('j') => PickerView {
                selected: if self.selected + 1 < last {
                    self.selected + 1
                } else {
                    last
                },
                ..self
            },
            Key::Home => PickerView { selected: 0, ..self },
            Key::End => PickerView { selected: last, ..self },
            Key::Left | Key::Backspace => self.parent_opened(),
            Key::Enter | Key::Right => match self.entries[self.selected].1 {
                ActionModel::SelectCurrent => self,
                ActionModel::Parent => self.parent_opened(),
                ActionModel::Open(name) => PickerView {
                    current: self.current.push(name),
                    selected: 0,
                    ..self
                },
            },
            _ => self,
        }
    }

    /// What one key answers.
    pub open spec fn key_event(self, code: Key) -> EventModel {
        match code {
            Key::Esc => EventModel::Cancel,
            Key::Left | Key::Backspace => self.parent_event(),
            Key::Char('r') => EventModel::Load,
            Key::Char(' ') => self.selection(),
            Key::Enter | Key::Right => match self.entries[self.selected].1 {
                ActionModel::SelectCurrent => self.selection(),
                ActionModel::Parent => self.parent_event(),
                ActionModel::Open(_) => EventModel::Load,
            },
            _ => EventModel::Continue,
        }
    }
}

/// Law: opening a subdirectory and then asking for the parent shows the directory again.
pub proof fn lemma_open_then_parent(picker: PickerView, name: Seq<char>)
    requires
        picker.valid(),
        picker.entries[picker.selected].1 == ActionModel::Open(name),
    ensures
        picker.key_event(Key::Enter) == EventModel::Load,
        picker.key_applied(Key::Enter).current == picker.current.push(name),
        picker.key_applied(Key::Enter).key_applied(Key::Left).current == picker.current,
        picker.key_applied(Key::Enter).key_event(Key::Left) == EventModel::Load,
{
    assert(picker.current.push(name).drop_last() =~= picker.current);
}

/// Browser of directories for one field of a dialog.
#[derive(Clone, Debug)]
pub struct DirectoryPicker {
    field: usize,
    base: Vec<String>,
    current: Vec<String>,
    entries: Vec<DirectoryEntry>,
    selected: usize,
    error: Option<String>,
}

impl View for DirectoryPicker {
    type V = PickerView;

    closed spec fn view(&self) -> PickerView {
        PickerView {
            field: self.field as int,
            base: self.base.deep_view(),
            current: self.current.deep_view(),
            entries: self.entries.deep_view(),
            selected: self.selected as int,
            error: match &self.error {
                Some(error) => Some(error@),
                None => None,
            },
        }
    }
}

/// A copy of a list of texts.
fn copy_texts(texts: &Vec<String>) -> (result: Vec<String>)
    ensures
        result.deep_view() == texts.deep_view(),
{
    let mut result: Vec<String> = Vec::new();
    let mut index: usize = 0;
    while index < texts.len()
        invariant
            index <= texts@.len(),
            result.deep_view() == texts.deep_view().take(index as int),
        decreases texts@.len() - index,
    {
        let ghost before = result.deep_view();
        let item = texts[index].clone();
        result.push(item);
        assert(result.deep_view() =~= before.push(item@));
        index += 1;
        assert(result.deep_view() =~= texts.deep_view().take(index as int));
    }
    assert(texts.deep_view().take(texts@.len() as int) =~= texts.deep_view());
    result
}

/// Label of a subdirectory.
fn label_of(name: &String) -> (result: String)
    ensures
        result@ == directory_label(name@),
{
    let mut label = "▸ ".to_owned();
    append_text(&mut label, name.as_str());
    append_text(&mut label, "/");
    label
}

/// Subdirectory names in browsing order.
fn sort_names(names: &Vec<String>) -> (result: Vec<String>)
    ensures
        result.deep_view() == sorted_labels(names.deep_view()),
{
    let mut result: Vec<String> = Vec::new();
    let mut labels: Vec<String> = Vec::new();
    let mut index: usize = 0;
    while index < names.len()
        invariant
            index <= names@.len(),
            result.deep_view() == sorted_labels(names.deep_view().take(index as int)),
            labels@.len() == result@.len(),
            forall|k: int| 0 <= k < labels@.len() ==> #[trigger] labels@[k]@ == directory_label(
                result@[k]@,
            ),
        decreases names@.len() - index,
    {
        let ghost taken = names.deep_view().take(index as int);
        let name = names[index].clone();
        let label = label_of(&name);
        assert(names.deep_view().take(index + 1).drop_last() =~= taken);
        assert(names.deep_view().take(index + 1).last() == name@);
        let mut position = result.len();
        while position > 0 && name_rank(&labels[position - 1], &label) > 0
            invariant
                position <= result@.len(),
                labels@.len() == result@.len(),
                forall|k: int| 0 <= k < labels@.len() ==> #[trigger] labels@[k]@ == directory_label(
                    result@[k]@,
                ),
                label@ == directory_label(name@),
                label_slot(result.deep_view(), name@, result@.len() as int) == label_slot(
                    result.deep_view(),
                    name@,
                    position as int,
                ),
            decreases position,
        {
            assert(result.deep_view()[position - 1] == result@[position - 1]@);
            position -= 1;
        }
        assert(position > 0 ==> result.deep_view()[position - 1] == result@[position - 1]@);
        let ghost before = result.deep_view();
        let ghost before_labels = labels@;
        let ghost before_items = result@;
        result.insert(position, name);
        labels.insert(position, label);
        assert(result.deep_view() =~= before.insert(position as int, name@));
        assert forall|k: int| 0 <= k < labels@.len() implies #[trigger] labels@[k]@
            == directory_label(result@[k]@) by {
            if k < position {
                assert(labels@[k] == before_labels[k]);
                assert(result@[k] == before_items[k]);
            } else if k > position {
                assert(labels@[k] == before_labels[k - 1]);
                assert(result@[k] == before_items[k - 1]);
            }
        }
        index += 1;
    }
    assert(names.deep_view().take(names@.len() as int) =~= names.deep_view());
    result
}

/// The entries of the directory shown, its subdirectories being `names`.
fn entries_for(current: &Vec<String>, names: &Vec<String>) -> (result: Vec<DirectoryEntry>)
    ensures
        result.deep_view() == listed_entries(current.deep_view(), names.deep_view()),
{
    let mut result: Vec<DirectoryEntry> = Vec::new();
    result.push(
        DirectoryEntry { label: "✓ 选择此目录".to_owned(), action: EntryAction::SelectCurrent },
    );
    if current.len() > 0 {
        result.push(DirectoryEntry { label: "↰ 返回上级".to_owned(), action: EntryAction::Parent });
    }
    let ghost head = result.deep_view();
    let sorted = sort_names(names);
    let ghost tail = sorted_labels(names.deep_view()).map_values(
        |name: Seq<char>| (directory_label(name), ActionModel::Open(name)),
    );
    let mut index: usize = 0;
    while index < sorted.len()
        invariant
            index <= sorted@.len(),
            sorted.deep_view() == sorted_labels(names.deep_view()),
            tail == sorted_labels(names.deep_view()).map_values(
                |name: Seq<char>| (directory_label(name), ActionModel::Open(name)),
            ),
            result.deep_view() == head + tail.take(index as int),
        decreases sorted@.len() - index,
    {
        let ghost before = result.deep_view();
        let name = sorted[index].clone();
        let entry = DirectoryEntry { label: label_of(&name), action: EntryAction::Open(name) };
        result.push(entry);
        assert(sorted.deep_view()[index as int] == sorted@[index as int]@);
        assert(result.deep_view() =~= before.push(entry.deep_view()));
        index += 1;
        assert(result.deep_view() =~= head + tail.take(index as int));
    }
    assert(tail.take(sorted@.len() as int) =~= tail);
    assert(result.deep_view() =~= listed_entries(current.deep_view(), names.deep_view()));
    result
}

impl DirectoryPicker {
    /// A browser for `field` showing `current`, whose subdirectories are `listing` or whose
    /// reading failed; chosen directories are written relative to `base`.
    pub fn new(
        field: usize,
        base: Vec<String>,
        current: Vec<String>,
        listing: Result<Vec<String>, String>,
    ) -> (result: DirectoryPicker)
        ensures
            result@.valid(),
            result@ == (PickerView {
                field: field as int,
                base: base.deep_view(),
                current: current.deep_view(),
                entries: Seq::empty(),
                selected: 0,
                error: None,
            }).refreshed(
                match listing {
                    Ok(names) => Ok(names.deep_view()),
                    Err(error) => Err(error@),
                },
            ),
    {
        let mut picker = DirectoryPicker {
            field,
            base,
            current,
            entries: Vec::new(),
            selected: 0,
            error: None,
        };
        picker.refresh(listing);
        picker
    }

    /// Shows the subdirectories read for the current directory, or the reading error.
    pub fn refresh(&mut self, listing: Result<Vec<String>, String>)
        ensures
            final(self)@ == old(self)@.refreshed(
                match listing {
                    Ok(names) => Ok(names.deep_view()),
                    Err(error) => Err(error@),
                },
            ),
            final(self)@.valid(),
    {
        match listing {
            Ok(names) => {
                self.entries = entries_for(&self.current, &names);
                self.error = None;
            },
            Err(error) => {
                let none: Vec<String> = Vec::new();
                assert(none.deep_view() =~= Seq::<Seq<char>>::empty());
                self.entries = entries_for(&self.current, &none);
                let mut message = "无法读取目录：".to_owned();
                append_text(&mut message, error.as_str());
                self.error = Some(message);
            },
        }
        let count = self.entries.len();
        if self.selected >= count {
            self.selected = count - 1;
        }
    }

    /// The chosen-directory event for the directory shown.
    fn select_current(&self) -> (result: PickerEvent)
        ensures
            result.deep_view() == self@.selection(),
    {
        PickerEvent::Selected { field: self.field, value: portable_path(&self.current, &self.base) }
    }

    /// Moves to the parent directory, if there is one.
    fn open_parent(&mut self) -> (result: PickerEvent)
        ensures
            final(self)@ == old(self)@.parent_opened(),
            result.deep_view() == old(self)@.parent_event(),
    {
        if self.current.len() > 0 {
            let ghost before = self.current.deep_view();
            self.current.pop();
            assert(self.current.deep_view() =~= before.drop_last());
            self.selected = 0;
            PickerEvent::Load
        } else {
            PickerEvent::Continue
        }
    }

    /// Handles one key.
    pub fn handle_key(&mut self, code: Key) -> (result: PickerEvent)
        requires
            old(self)@.valid(),
        ensures
            final(self)@ == old(self)@.key_applied(code),
            final(self)@.valid(),
            result.deep_view() == old(self)@.key_event(code),
    {
        let last = self.entries.len() - 1;
        if code == Key::Esc {
            PickerEvent::Cancel
        } else if code == Key::Up || code == Key::Char('k') {
            if self.selected > 0 {
                self.selected = self.selected - 1;
            }
            PickerEvent::Continue
        } else if code == Key::Down || code == Key::Char('j') {
            self.selected = if self.selected < last {
                self.selected + 1
            } else {
                last
            };
            PickerEvent::Continue
        } else if code == Key::Home {
            self.selected = 0;
            PickerEvent::Continue
        } else if code == Key::End {
            self.selected = last;
            PickerEvent::Continue
        } else if code == Key::Left || code == Key::Backspace {
            self.open_parent()
        } else if code == Key::Char('r') {
            PickerEvent::Load
        } else if code == Key::Char(' ') {
            self.select_current()
        } else if code == Key::Enter || code == Key::Right {
            assert(self@.entries[self.selected as int] == self.entries@[self.selected as int].deep_view());
            let opened = match &self.entries[self.selected].action {
                EntryAction::SelectCurrent => None,
                EntryAction::Parent => Some(None),
                EntryAction::Open(name) => Some(Some(name.clone())),
            };
            match opened {
                None => self.select_current(),
                Some(None) => self.open_parent(),
                Some(Some(name)) => {
                    let ghost before = self.current.deep_view();
                    self.current.push(name);
                    assert(self.current.deep_view() =~= before.push(name@));
                    self.selected = 0;
                    PickerEvent::Load
                },
            }
        } else {
            PickerEvent::Continue
        }
    }

    /// Field the browser chooses for.
    pub fn field(&self) -> (result: usize)
        ensures
            result == self@.field,
    {
        self.field
    }

    /// Components of the directory shown.
    pub fn current(&self) -> (result: Vec<String>)
        ensures
            result.deep_view() == self@.current,
    {
        copy_texts(&self.current)
    }

    /// Title of the directory shown.
    pub fn location(&self) -> (result: String)
        ensures
            result@ == path_text(self@.current),
    {
        let slash = "/";
        proof {
            reveal_strlit("/");
        }
        assert(slash@ =~= seq!['/']);
        let mut result = slash.to_owned();
        let rest = join_texts(&self.current, slash);
        append_text(&mut result, rest.as_str());
        assert(result@ =~= path_text(self@.current));
        result
    }

    /// Each entry's label and whether it is the selected one.
    pub fn entries(&self) -> (result: Vec<(String, bool)>)
        ensures
            result@.len() == self@.entries.len(),
            forall|index: int|
                0 <= index < result@.len() ==> #[trigger] result@[index].0@
                    == self@.entries[index].0 && result@[index].1 == (index == self@.selected),
    {
        let mut result: Vec<(String, bool)> = Vec::new();
        let mut index: usize = 0;
        while index < self.entries.len()
            invariant
                index <= self.entries@.len(),
                result@.len() == index,
                forall|k: int|
                    0 <= k < index ==> #[trigger] result@[k].0@ == self@.entries[k].0
                        && result@[k].1 == (k == self@.selected),
            decreases self.entries@.len() - index,
        {
            assert(self@.entries[index as int] == self.entries@[index as int].deep_view());
            let label = self.entries[index].label.clone();
            assert(label@ == self@.entries[index as int].0);
            result.push((label, index == self.selected));
            index += 1;
        }
        result
    }

    /// Position of the selected entry.
    pub fn selected(&self) -> (result: usize)
        ensures
            result == self@.selected,
    {
        self.selected
    }

    /// The last reading error, if the directory shown could not be read.
    pub fn error(&self) -> (result: Option<String>)
        ensures
            match result {
                Some(error) => self@.error == Some(error@),
                None => self@.error is None,
            },
    {
        match &self.error {
            Some(error) => Some(error.clone()),
            None => None,
        }
    }
}

/// Whether a piece of a path between slashes names a component: not empty and not `.`.
pub open spec fn is_component(piece: Seq<char>) -> bool {
    piece.len() > 0 && piece != seq!['.']
}

/// The pieces that name components, in order.
pub open spec fn kept_components(parts: Seq<Seq<char>>) -> Seq<Seq<char>>
    decreases parts.len(),
{
    if parts.len() == 0 {
        Seq::empty()
    } else {
        let rest = kept_components(parts.drop_last());
        if is_component(parts.last()) {
            rest.push(parts.last())
        } else {
            rest
        }
    }
}

/// Components a path text names.
pub open spec fn path_components(text: Seq<char>) -> Seq<Seq<char>> {
    kept_components(pieces(text, '/'))
}

/// The directory a field's text asks to browse: the base directory for a blank text, the text
/// itself when absolute, otherwise the text below the base directory.
pub open spec fn requested_components(configured: Seq<char>, base: Seq<Seq<char>>) -> Seq<
    Seq<char>,
> {
    if trimmed(configured).len() == 0 {
        base
    } else if configured.len() > 0 && configured[0] == '/' {
        path_components(configured)
    } else {
        base + path_components(configured)
    }
}

/// Components of the directory a field's text asks to browse.
pub fn requested_directory(configured: &str, base: &Vec<String>) -> (result: Vec<String>)
    ensures
        result.deep_view() == requested_components(configured@, base.deep_view()),
{
    let characters = chars_of(configured);
    let stripped = trim_chars(characters.as_slice());
    if stripped.len() == 0 {
        return copy_texts(base);
    }
    let absolute = characters.len() > 0 && characters[0] == '/';
    let mut result: Vec<String> = if absolute {
        Vec::new()
    } else {
        copy_texts(base)
    };
    let ghost start = result.deep_view();
    let parts = split_text(configured, '/');
    let mut index: usize = 0;
    while index < parts.len()
        invariant
            index <= parts@.len(),
            parts.deep_view() == pieces(configured@, '/'),
            result.deep_view() == start + kept_components(parts.deep_view().take(index as int)),
        decreases parts@.len() - index,
    {
        let ghost taken = parts.deep_view().take(index as int);
        assert(parts.deep_view().take(index + 1).drop_last() =~= taken);
        let piece = chars_of(parts[index].as_str());
        let dot = piece.len() == 1 && piece[0] == '.';
        assert(dot == (piece@ == seq!['.'])) by {
            if piece@.len() == 1 && piece@[0] == '.' {
                assert(piece@ =~= seq!['.']);
            }
        }
        if piece.len() > 0 && !dot {
            let ghost before = result.deep_view();
            let item = parts[index].clone();
            result.push(item);
            assert(result.deep_view() =~= before.push(item@));
        }
        index += 1;
        assert(result.deep_view() =~= start + kept_components(parts.deep_view().take(index as int)));
    }
    assert(parts.deep_view().take(parts@.len() as int) =~= parts.deep_view());
    if absolute {
        assert(result.deep_view() =~= path_components(configured@));
    }
    result
}

} // verus!
