//! Table editing of a key-value field: rows, columns, a character cursor and validation.

use vstd::prelude::*;

use crate::input::{Key, KeyPress};
use crate::json::keys_increasing;
use crate::overview_collection::{
    lemma_text_order_antisymmetric, lemma_text_order_equal, text_order, text_rank,
};
use crate::text::{
    append_text, chars_of, insert_char_at, remove_char_at, same_text, string_of, trim_chars, trimmed,
};

verus! {

/// One editable row of a key-value table.
#[derive(Clone, Debug)]
pub struct MapRow {
    /// The key cell.
    pub key: String,
    /// The value cell.
    pub value: String,
}

/// A row as a mathematical value.
pub type RowModel = (Seq<char>, Seq<char>);

impl DeepView for MapRow {
    type V = RowModel;

    open spec fn deep_view(&self) -> RowModel {
        (self.key@, self.value@)
    }
}

/// The column being edited.
#[derive(Clone, Copy, Debug, PartialEq, Eq, Structural)]
pub enum MapColumn {
    Key,
    Value,
}

/// Position, among the first `position` entries, after which an insertion sort by key puts
/// `key`.
pub open spec fn key_slot(entries: Seq<RowModel>, key: Seq<char>, position: int) -> int
    decreases position,
{
    if position > 0 && text_order(entries[position - 1].0, key) > 0 {
        key_slot(entries, key, position - 1)
    } else {
        position
    }
}

/// Whether some entry has the key.
pub open spec fn has_key(entries: Seq<RowModel>, key: Seq<char>) -> bool {
    exists|index: int| 0 <= index < entries.len() && #[trigger] entries[index].0 == key
}

/// Message for a row whose key is blank.
pub open spec fn blank_key_message() -> Seq<char> {
    "键值表中的键不能为空"@
}

/// Message for a key that occurs twice.
pub open spec fn duplicate_key_message(key: Seq<char>) -> Seq<char> {
    "键值表中的键 `"@ + key + "` 重复"@
}

/// The entries a table stands for, ordered by key: empty rows are skipped, keys are trimmed,
/// values kept as typed; the first blank key or repeated key makes it an error.
pub open spec fn table_entries(rows: Seq<RowModel>) -> Result<Seq<RowModel>, Seq<char>>
    decreases rows.len(),
{
    if rows.len() == 0 {
        Ok(Seq::empty())
    } else {
        match table_entries(rows.drop_last()) {
            Err(message) => Err(message),
            Ok(entries) => {
                let row = rows.last();
                if row.0.len() == 0 && row.1.len() == 0 {
                    Ok(entries)
                } else {
                    let key = trimmed(row.0);
                    if key.len() == 0 {
                        Err(blank_key_message())
                    } else if has_key(entries, key) {
                        Err(duplicate_key_message(key))
                    } else {
                        Ok(entries.insert(key_slot(entries, key, entries.len() as int), (key, row.1)))
                    }
                }
            },
        }
    }
}

/// Lemma: a problem found in the first rows is the problem of the whole table.
pub proof fn lemma_table_error_stays(rows: Seq<RowModel>, count: int)
    requires
        0 <= count <= rows.len(),
        table_entries(rows.take(count)) is Err,
    ensures
        table_entries(rows) == table_entries(rows.take(count)),
    decreases rows.len() - count,
{
    if count < rows.len() {
        assert(rows.take(count + 1).drop_last() == rows.take(count));
        lemma_table_error_stays(rows, count + 1);
    } else {
        assert(rows.take(count) == rows);
    }
}

/// Lemma: a key slot follows the entries that do not come after the key and precedes the first
/// scanned entry that does.
pub proof fn lemma_key_slot_fits(entries: Seq<RowModel>, key: Seq<char>, position: int)
    requires
        0 <= position <= entries.len(),
    ensures
        ({
            let slot = key_slot(entries, key, position);
            &&& 0 <= slot <= position
            &&& slot > 0 ==> text_order(entries[slot - 1].0, key) <= 0
            &&& slot < position ==> text_order(entries[slot].0, key) > 0
        }),
    decreases position,
{
    if position > 0 && text_order(entries[position - 1].0, key) > 0 {
        lemma_key_slot_fits(entries, key, position - 1);
    }
}

/// Lemma: inserting a new key at its slot keeps keys strictly increasing.
pub proof fn lemma_slot_insert_increasing(entries: Seq<RowModel>, key: Seq<char>, value: Seq<char>)
    requires
        keys_increasing(entries),
        !has_key(entries, key),
    ensures
        keys_increasing(entries.insert(key_slot(entries, key, entries.len() as int), (key, value))),
{
    let slot = key_slot(entries, key, entries.len() as int);
    lemma_key_slot_fits(entries, key, entries.len() as int);
    let next = entries.insert(slot, (key, value));
    entries.insert_ensures(slot, (key, value));
    assert forall|i: int| 0 <= i < next.len() - 1 implies text_order(#[trigger] next[i].0, next[i + 1].0) < 0 by {
        if i + 1 < slot {
            assert(text_order(entries[i].0, entries[i + 1].0) < 0);
        } else if i + 1 == slot {
            assert(next[i] == entries[i]);
            if text_order(entries[i].0, key) == 0 {
                lemma_text_order_equal(entries[i].0, key);
                assert(entries[i].0 == key);
                assert(has_key(entries, key));
            }
        } else if i == slot {
            assert(next[i + 1] == entries[i]);
            lemma_text_order_antisymmetric(entries[i].0, key);
        } else {
            assert(next[i] == entries[i - 1]);
            assert(next[i + 1] == entries[i]);
            assert(text_order(entries[i - 1].0, entries[i].0) < 0);
        }
    }
}

/// The entries of a valid table have strictly increasing keys.
pub proof fn lemma_table_keys_increasing(rows: Seq<RowModel>)
    ensures
        table_entries(rows) matches Ok(entries) ==> keys_increasing(entries),
    decreases rows.len(),
{
    if rows.len() > 0 {
        lemma_table_keys_increasing(rows.drop_last());
        if let Ok(entries) = table_entries(rows.drop_last()) {
            let row = rows.last();
            let key = trimmed(row.0);
            if !(row.0.len() == 0 && row.1.len() == 0) && key.len() > 0 && !has_key(entries, key) {
                lemma_slot_insert_increasing(entries, key, row.1);
            }
        }
    }
}

/// Abstract state of a key-value table editor.
pub ghost struct MapEditorView {
    pub field: int,
    pub rows: Seq<RowModel>,
    pub selected: int,
    pub column: MapColumn,
    pub cursor: int,
}

impl MapEditorView {
    /// The text of the current cell.
    pub open spec fn cell(self) -> Seq<char> {
        match self.column {
            MapColumn::Key => self.rows[self.selected].0,
            MapColumn::Value => self.rows[self.selected].1,
        }
    }

    /// The table always has a row, one is selected, and the cursor lies within its cell.
    pub open spec fn valid(self) -> bool {
        &&& self.rows.len() > 0
        &&& 0 <= self.selected < self.rows.len()
        &&& 0 <= self.cursor <= self.cell().len()
    }

    /// The state with the current cell replaced by `text`.
    pub open spec fn with_cell(self, text: Seq<char>) -> MapEditorView {
        let row = self.rows[self.selected];
        MapEditorView {
            rows: self.rows.update(
                self.selected,
                match self.column {
                    MapColumn::Key => (text, row.1),
                    MapColumn::Value => (row.0, text),
                },
            ),
            ..self
        }
    }

    /// The state after moving to the neighbouring row, the cursor at the end of the cell.
    pub open spec fn row_moved(self, forward: bool) -> MapEditorView {
        let selected = if forward {
            if self.selected + 1 < self.rows.len() {
                self.selected + 1
            } else {
                self.rows.len() - 1
            }
        } else if self.selected > 0 {
            self.selected - 1
        } else {
            0
        };
        let moved = MapEditorView { selected, ..self };
        MapEditorView { cursor: moved.cell().len() as int, ..moved }
    }

    /// The state after switching between key and value, the cursor at the end of the cell.
    pub open spec fn column_switched(self) -> MapEditorView {
        let switched = MapEditorView {
            column: match self.column {
                MapColumn::Key => MapColumn::Value,
                MapColumn::Value => MapColumn::Key,
            },
            ..self
        };
        MapEditorView { cursor: switched.cell().len() as int, ..switched }
    }

    /// The state after adding an empty row below the current one and moving to its key.
    pub open spec fn row_added(self) -> MapEditorView {
        MapEditorView {
            rows: self.rows.insert(self.selected + 1, (Seq::empty(), Seq::empty())),
            selected: self.selected + 1,
            column: MapColumn::Key,
            cursor: 0,
            ..self
        }
    }

    /// The state after removing the current row; an empty table gets one empty row back.
    pub open spec fn row_removed(self) -> MapEditorView {
        let remaining = self.rows.remove(self.selected);
        let rows = if remaining.len() == 0 {
            seq![(Seq::<char>::empty(), Seq::<char>::empty())]
        } else {
            remaining
        };
        let kept = MapEditorView {
            rows,
            selected: if self.selected < rows.len() {
                self.selected
            } else {
                rows.len() - 1
            },
            ..self
        };
        MapEditorView { cursor: kept.cell().len() as int, ..kept }
    }

    /// The state after one key in the table.
    pub open spec fn key_applied(self, key: KeyPress) -> MapEditorView {
        if key.control {
            if key.code == Key::Char('n') {
                self.row_added()
            } else if key.code == Key::Char('d') {
                self.row_removed()
            } else {
                self
            }
        } else {
            match key.code {
                Key::Up => self.row_moved(false),
                Key::Down => self.row_moved(true),
                Key::Tab | Key::BackTab => self.column_switched(),
                Key::Left => MapEditorView {
                    cursor: if self.cursor > 0 {
                        self.cursor - 1
                    } else {
                        0
                    },
                    ..self
                },
                Key::Right => MapEditorView {
                    cursor: if self.cursor + 1 < self.cell().len() {
                        self.cursor + 1
                    } else {
                        self.cell().len() as int
                    },
                    ..self
                },
                Key::Home => MapEditorView { cursor: 0, ..self },
                Key::End => MapEditorView { cursor: self.cell().len() as int, ..self },
                Key::Backspace => if self.cursor == 0 {
                    self
                } else {
                    MapEditorView {
                        cursor: self.cursor - 1,
                        ..self.with_cell(self.cell().remove(self.cursor - 1))
                    }
                },
                Key::Delete => if self.cursor >= self.cell().len() {
                    self
                } else {
                    self.with_cell(self.cell().remove(self.cursor))
                },
                Key::Char(character) => MapEditorView {
                    cursor: self.cursor + 1,
                    ..self.with_cell(self.cell().insert(self.cursor, character))
                },
                _ => self,
            }
        }
    }
}

/// Table editing state of one key-value field.
#[derive(Clone, Debug)]
pub struct MapEditor {
    field: usize,
    rows: Vec<MapRow>,
    selected: usize,
    column: MapColumn,
    cursor: usize,
}

impl View for MapEditor {
    type V = MapEditorView;

    closed spec fn view(&self) -> MapEditorView {
        MapEditorView {
            field: self.field as int,
            rows: self.rows.deep_view(),
            selected: self.selected as int,
            column: self.column,
            cursor: self.cursor as int,
        }
    }
}

/// An empty row.
fn empty_row() -> (result: MapRow)
    ensures
        result.deep_view() == (Seq::<char>::empty(), Seq::<char>::empty()),
{
    MapRow { key: String::new(), value: String::new() }
}

impl MapEditor {
    /// A table for the given field and entries; an empty table gets one empty row.
    pub fn new(field: usize, values: Vec<(String, String)>) -> (result: MapEditor)
        ensures
            result@.valid(),
            result@.field == field,
            result@.rows == (if values@.len() == 0 {
                seq![(Seq::<char>::empty(), Seq::<char>::empty())]
            } else {
                values.deep_view()
            }),
            result@.selected == 0,
            result@.column == MapColumn::Key,
            result@.cursor == result@.rows[0].0.len(),
    {
        let mut rows: Vec<MapRow> = Vec::new();
        let mut index: usize = 0;
        while index < values.len()
            invariant
                index <= values@.len(),
                rows@.len() == index,
                forall|k: int| 0 <= k < index ==> rows@[k].deep_view() == values.deep_view()[k],
            decreases values@.len() - index,
        {
            rows.push(MapRow { key: values[index].0.clone(), value: values[index].1.clone() });
            index += 1;
        }
        if rows.len() == 0 {
            rows.push(empty_row());
        }
        let cursor = chars_of(rows[0].key.as_str()).len();
        let result = MapEditor { field, rows, selected: 0, column: MapColumn::Key, cursor };
        assert(result@.rows =~= (if values@.len() == 0 {
            seq![(Seq::<char>::empty(), Seq::<char>::empty())]
        } else {
            values.deep_view()
        }));
        result
    }

    /// Position of the field in the dialog.
    pub fn field(&self) -> (result: usize)
        ensures
            result == self@.field,
    {
        self.field
    }

    /// All rows.
    pub fn rows(&self) -> (result: &[MapRow])
        ensures
            result@.map_values(|row: MapRow| row.deep_view()) == self@.rows,
    {
        proof {
            assert(self.rows@.map_values(|row: MapRow| row.deep_view()) =~= self.rows.deep_view());
        }
        self.rows.as_slice()
    }

    /// Current row, column and character cursor.
    pub fn position(&self) -> (result: (usize, MapColumn, usize))
        ensures
            result.0 == self@.selected,
            result.1 == self@.column,
            result.2 == self@.cursor,
    {
        (self.selected, self.column, self.cursor)
    }

    /// Text of the current cell.
    fn current(&self) -> (result: &String)
        requires
            0 <= self@.selected < self@.rows.len(),
        ensures
            result@ == self@.cell(),
    {
        let row = &self.rows[self.selected];
        match self.column {
            MapColumn::Key => &row.key,
            MapColumn::Value => &row.value,
        }
    }

    /// Replaces the text of the current cell.
    fn set_current(&mut self, text: String)
        requires
            old(self)@.valid(),
        ensures
            final(self)@ == old(self)@.with_cell(text@),
    {
        let row = &self.rows[self.selected];
        let replaced = match self.column {
            MapColumn::Key => MapRow { key: text, value: row.value.clone() },
            MapColumn::Value => MapRow { key: row.key.clone(), value: text },
        };
        let ghost before = self.rows@;
        self.rows.set(self.selected, replaced);
        assert(self.rows.deep_view() =~= old(self)@.with_cell(text@).rows);
    }

    /// Handles one key of the table.
    pub fn handle_key(&mut self, key: KeyPress)
        requires
            old(self)@.valid(),
        ensures
            final(self)@ == old(self)@.key_applied(key),
            final(self)@.valid(),
    {
        if key.control {
            if key.code == Key::Char('n') {
                self.add_row();
            } else if key.code == Key::Char('d') {
                self.remove_row();
            }
            return;
        }
        match key.code {
            Key::Up => self.move_row(false),
            Key::Down => self.move_row(true),
            Key::Tab | Key::BackTab => self.switch_column(),
            Key::Left => {
                self.cursor = if self.cursor > 0 {
                    self.cursor - 1
                } else {
                    0
                };
            },
            Key::Right => {
                let count = chars_of(self.current().as_str()).len();
                self.cursor = if self.cursor < count {
                    self.cursor + 1
                } else {
                    count
                };
            },
            Key::Home => {
                self.cursor = 0;
            },
            Key::End => {
                self.cursor = chars_of(self.current().as_str()).len();
            },
            Key::Backspace => self.backspace(),
            Key::Delete => self.delete(),
            Key::Char(character) => self.insert(character),
            _ => {},
        }
    }

    /// The entries of the table ordered by key, or the first problem found.
    pub fn values(&self) -> (result: Result<Vec<(String, String)>, String>)
        ensures
            match (result, table_entries(self@.rows)) {
                (Ok(entries), Ok(expected)) => entries.deep_view() == expected,
                (Err(message), Err(expected)) => message@ == expected,
                _ => false,
            },
    {
        let mut entries: Vec<(String, String)> = Vec::new();
        let mut index: usize = 0;
        assert(self@.rows.take(0) == Seq::<RowModel>::empty());
        assert(entries.deep_view() =~= Seq::<RowModel>::empty());
        while index < self.rows.len()
            invariant
                index <= self@.rows.len(),
                table_entries(self@.rows.take(index as int)) == Ok::<Seq<RowModel>, Seq<char>>(
                    entries.deep_view(),
                ),
            decreases self@.rows.len() - index,
        {
            assert(self@.rows.take(index + 1).drop_last() == self@.rows.take(index as int));
            assert(self@.rows.take(index + 1).last() == self.rows@[index as int].deep_view());
            let row = &self.rows[index];
            if row.key.as_str().is_empty() && row.value.as_str().is_empty() {
                index += 1;
                continue;
            }
            let key = string_of(trim_chars(chars_of(row.key.as_str()).as_slice()).as_slice());
            if key.as_str().is_empty() {
                proof {
                    lemma_table_error_stays(self@.rows, index + 1);
                }
                return Err("键值表中的键不能为空".to_owned());
            }
            let mut duplicate = false;
            let mut scan: usize = 0;
            while scan < entries.len()
                invariant
                    scan <= entries@.len(),
                    !duplicate ==> forall|k: int| 0 <= k < scan ==> entries.deep_view()[k].0 != key@,
                    duplicate ==> has_key(entries.deep_view(), key@),
                decreases entries@.len() - scan,
            {
                if same_text(&entries[scan].0, &key) {
                    assert(entries.deep_view()[scan as int].0 == key@);
                    duplicate = true;
                }
                scan += 1;
            }
            if duplicate {
                let mut message = "键值表中的键 `".to_owned();
                append_text(&mut message, key.as_str());
                append_text(&mut message, "` 重复");
                proof {
                    lemma_table_error_stays(self@.rows, index + 1);
                }
                return Err(message);
            }
            let ghost before = entries.deep_view();
            let mut slot = entries.len();
            while slot > 0 && text_rank(
                chars_of(entries[slot - 1].0.as_str()).as_slice(),
                chars_of(key.as_str()).as_slice(),
            ) > 0
                invariant
                    slot <= entries@.len(),
                    before == entries.deep_view(),
                    key_slot(before, key@, before.len() as int) == key_slot(before, key@, slot as int),
                decreases slot,
            {
                slot -= 1;
            }
            entries.insert(slot, (key, row.value.clone()));
            assert(entries.deep_view() =~= before.insert(slot as int, (key@, row.value@)));
            index += 1;
        }
        assert(self@.rows.take(self@.rows.len() as int) == self@.rows);
        Ok(entries)
    }

    /// Moves to the neighbouring row.
    fn move_row(&mut self, forward: bool)
        requires
            old(self)@.valid(),
        ensures
            final(self)@ == old(self)@.row_moved(forward),
            final(self)@.valid(),
    {
        self.selected = if forward {
            if self.selected < self.rows.len() - 1 {
                self.selected + 1
            } else {
                self.rows.len() - 1
            }
        } else if self.selected > 0 {
            self.selected - 1
        } else {
            0
        };
        self.cursor = chars_of(self.current().as_str()).len();
    }

    /// Switches between key and value.
    fn switch_column(&mut self)
        requires
            old(self)@.valid(),
        ensures
            final(self)@ == old(self)@.column_switched(),
            final(self)@.valid(),
    {
        self.column = match self.column {
            MapColumn::Key => MapColumn::Value,
            MapColumn::Value => MapColumn::Key,
        };
        self.cursor = chars_of(self.current().as_str()).len();
    }

    /// Adds an empty row below the current one and moves to its key.
    fn add_row(&mut self)
        requires
            old(self)@.valid(),
        ensures
            final(self)@ == old(self)@.row_added(),
            final(self)@.valid(),
    {
        let count = self.rows.len();
        assert(self.selected < count);
        self.rows.insert(self.selected + 1, empty_row());
        assert(self.rows.deep_view() =~= old(self)@.rows.insert(
            old(self)@.selected + 1,
            (Seq::<char>::empty(), Seq::<char>::empty()),
        ));
        self.selected += 1;
        self.column = MapColumn::Key;
        self.cursor = 0;
    }

    /// Removes the current row, keeping at least one row to type in.
    fn remove_row(&mut self)
        requires
            old(self)@.valid(),
        ensures
            final(self)@ == old(self)@.row_removed(),
            final(self)@.valid(),
    {
        self.rows.remove(self.selected);
        assert(self.rows.deep_view() =~= old(self)@.rows.remove(old(self)@.selected));
        if self.rows.len() == 0 {
            self.rows.push(empty_row());
            assert(self.rows.deep_view() =~= seq![(Seq::<char>::empty(), Seq::<char>::empty())]);
        }
        if self.selected >= self.rows.len() {
            self.selected = self.rows.len() - 1;
        }
        self.cursor = chars_of(self.current().as_str()).len();
    }

    /// Inserts a character at the cursor.
    fn insert(&mut self, character: char)
        requires
            old(self)@.valid(),
        ensures
            final(self)@ == old(self)@.key_applied(KeyPress { code: Key::Char(character), control: false }),
            final(self)@.valid(),
    {
        let text = insert_char_at(self.current().as_str(), self.cursor, character);
        let count = chars_of(text.as_str()).len();
        self.set_current(text);
        assert(self.cursor < count);
        self.cursor += 1;
    }

    /// Deletes the character before the cursor.
    fn backspace(&mut self)
        requires
            old(self)@.valid(),
        ensures
            final(self)@ == old(self)@.key_applied(KeyPress { code: Key::Backspace, control: false }),
            final(self)@.valid(),
    {
        if self.cursor == 0 {
            return;
        }
        let text = remove_char_at(self.current().as_str(), self.cursor - 1);
        self.set_current(text);
        self.cursor -= 1;
    }

    /// Deletes the character at the cursor.
    fn delete(&mut self)
        requires
            old(self)@.valid(),
        ensures
            final(self)@ == old(self)@.key_applied(KeyPress { code: Key::Delete, control: false }),
            final(self)@.valid(),
    {
        if self.cursor >= chars_of(self.current().as_str()).len() {
            return;
        }
        let text = remove_char_at(self.current().as_str(), self.cursor);
        self.set_current(text);
    }
}

} // verus!
