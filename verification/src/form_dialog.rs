//! Input dialogs of the structured configuration form: field navigation and text editing.

use vstd::prelude::*;

use crate::form_dependency::{
    copy_download, copy_ssh, copy_verify, FormDependency, FormDependencyDownload, FormDependencySsh,
    FormVerify,
};
use crate::form_field::{copy_field, field, map_field, DialogField, DialogFieldKind, FieldModel};
use crate::form_value::{
    argument_list, empty_message, optional, parse_args, parse_map, required_value, table_text_entries,
};
use crate::json::{args_text, json_string_array};
use crate::number::{digits_of, natural_text, parse_unsigned, parse_unsigned_text};
use crate::text::{copy_optional_text, trim_chars, trimmed};
use crate::input::{Key, KeyPress};
use crate::json::{json_string_object, keys_increasing, map_text};
use crate::map_editor::{lemma_table_keys_increasing, table_entries, MapEditor, MapEditorView};
use crate::text::{chars_of, copy_text_list, insert_char_at, remove_char_at, same_text, string_of};

verus! {

/// What a dialog edits.
#[derive(Clone, Debug)]
pub enum DialogKind {
    /// The project's basic information.
    Project,
    /// A named profile, new when there is no original name.
    Profile(Option<String>),
    /// A task, new when there is no original name.
    Task(Option<String>),
    /// The health check of the named task.
    Health(String),
    /// A managed dependency, new when there is no original name.
    DependencyBasic(Option<String>),
    /// Download and SSH policy of the named dependency.
    DependencyAdvanced(String),
}

/// What a dialog edits, as a mathematical value.
pub ghost enum KindModel {
    Project,
    Profile(Option<Seq<char>>),
    Task(Option<Seq<char>>),
    Health(Seq<char>),
    DependencyBasic(Option<Seq<char>>),
    DependencyAdvanced(Seq<char>),
}

impl DeepView for DialogKind {
    type V = KindModel;

    open spec fn deep_view(&self) -> KindModel {
        match self {
            DialogKind::Project => KindModel::Project,
            DialogKind::Profile(name) => KindModel::Profile(name.deep_view()),
            DialogKind::Task(name) => KindModel::Task(name.deep_view()),
            DialogKind::Health(name) => KindModel::Health(name@),
            DialogKind::DependencyBasic(name) => KindModel::DependencyBasic(name.deep_view()),
            DialogKind::DependencyAdvanced(name) => KindModel::DependencyAdvanced(name@),
        }
    }
}

/// Title of a dialog.
pub open spec fn kind_title(kind: KindModel) -> Seq<char> {
    match kind {
        KindModel::Project => "编辑项目"@,
        KindModel::Profile(Some(_)) => "编辑 profile"@,
        KindModel::Profile(None) => "新建 profile"@,
        KindModel::Task(Some(_)) => "编辑 Task"@,
        KindModel::Task(None) => "新建 Task"@,
        KindModel::Health(_) => "编辑健康检查"@,
        KindModel::DependencyBasic(Some(_)) => "编辑管理依赖"@,
        KindModel::DependencyBasic(None) => "新建管理依赖"@,
        KindModel::DependencyAdvanced(_) => "高级下载与 SSH 策略"@,
    }
}

/// Whether the field at `index` takes part in a dialog: in a health check, the fields of the
/// chosen probe (`exec`: 1 to 3, `http`: 4 to 9) besides the probe itself and 10 to 14;
/// every field elsewhere.
pub open spec fn visible_field(kind: KindModel, fields: Seq<FieldModel>, index: int) -> bool {
    match kind {
        KindModel::Health(_) => {
            ||| index == 0
            ||| 10 <= index <= 14
            ||| fields[0].1 == "exec"@ && 1 <= index <= 3
            ||| fields[0].1 == "http"@ && 4 <= index <= 9
        },
        _ => true,
    }
}

/// The neighbouring position in a list of `count`, wrapping around.
pub open spec fn wrapped_step(index: int, forward: bool, count: int) -> int {
    if forward {
        (index + 1) % count
    } else if index == 0 {
        count - 1
    } else {
        index - 1
    }
}

/// Abstract state of a dialog.
pub ghost struct DialogView {
    pub kind: KindModel,
    pub fields: Seq<FieldModel>,
    pub initial: Seq<Seq<char>>,
    pub selected: int,
    pub map_editor: Option<MapEditorView>,
}

impl DialogView {
    /// The selected field.
    pub open spec fn current(self) -> FieldModel {
        self.fields[self.selected]
    }

    /// Fields exist, one is selected, every cursor lies within its text, and an open table
    /// edits one of the fields.
    pub open spec fn valid(self) -> bool {
        &&& self.fields.len() > 0
        &&& 0 <= self.selected < self.fields.len()
        &&& forall|index: int|
            0 <= index < self.fields.len() ==> 0 <= #[trigger] self.fields[index].3
                <= self.fields[index].1.len()
        &&& match self.map_editor {
            Some(editor) => editor.valid() && 0 <= editor.field < self.fields.len(),
            None => true,
        }
    }

    /// Whether the field at `index` takes part in the dialog.
    pub open spec fn shows(self, index: int) -> bool {
        visible_field(self.kind, self.fields, index)
    }

    /// The next field in the direction that takes part, after at most `steps` moves.
    pub open spec fn next_shown(self, index: int, forward: bool, steps: nat) -> int
        decreases steps,
    {
        let next = wrapped_step(index, forward, self.fields.len() as int);
        if steps == 0 || self.shows(next) {
            next
        } else {
            self.next_shown(next, forward, (steps - 1) as nat)
        }
    }

    /// The state with the selected field replaced.
    pub open spec fn with_current(self, current: FieldModel) -> DialogView {
        DialogView { fields: self.fields.update(self.selected, current), ..self }
    }

    /// The state after cycling the selected field through its choices.
    pub open spec fn choice_cycled(self, forward: bool) -> DialogView {
        let current = self.current();
        let position = crate::package_workspace::key_position(current.2, current.1, 0);
        if position < 0 {
            self
        } else {
            let value = current.2[wrapped_step(position, forward, current.2.len() as int)];
            self.with_current((current.0, value, current.2, value.len() as int, current.4))
        }
    }

    /// The state after moving the cursor; a choice field cycles its value instead.
    pub open spec fn cursor_moved(self, forward: bool) -> DialogView {
        let current = self.current();
        if current.4 == DialogFieldKind::Choice {
            self.choice_cycled(forward)
        } else {
            let cursor = if forward {
                if current.3 + 1 < current.1.len() {
                    current.3 + 1
                } else {
                    current.1.len() as int
                }
            } else if current.3 > 0 {
                current.3 - 1
            } else {
                0
            };
            self.with_current((current.0, current.1, current.2, cursor, current.4))
        }
    }
}

/// An input dialog of the form.
#[derive(Clone, Debug)]
pub struct Dialog {
    kind: DialogKind,
    fields: Vec<DialogField>,
    initial_values: Vec<String>,
    selected: usize,
    map_editor: Option<MapEditor>,
}

impl View for Dialog {
    type V = DialogView;

    closed spec fn view(&self) -> DialogView {
        DialogView {
            kind: self.kind.deep_view(),
            fields: self.fields.deep_view(),
            initial: self.initial_values.deep_view(),
            selected: self.selected as int,
            map_editor: match &self.map_editor {
                Some(editor) => Some(editor@),
                None => None,
            },
        }
    }
}

/// The text of a field.
fn value_of(field: &DialogField) -> (result: String)
    ensures
        result@ == field.value@,
{
    field.value.clone()
}

/// A text field's model: its label and text, no choices, the cursor at the end.
pub open spec fn text_field_model(label: Seq<char>, value: Seq<char>) -> FieldModel {
    (label, value, Seq::empty(), value.len() as int, DialogFieldKind::Text)
}

/// Choices of a dependency's kind.
pub open spec fn dependency_kinds() -> Seq<Seq<char>> {
    seq!["auto"@, "binary"@, "file"@, "directory"@]
}

/// A text, or nothing as the empty text.
pub open spec fn text_or_empty(text: Option<Seq<char>>) -> Seq<char> {
    match text {
        Some(text) => text,
        None => Seq::empty(),
    }
}

/// The version a dependency dialog shows: empty for the default `source`.
pub open spec fn shown_version(version: Seq<char>) -> Seq<char> {
    if version == "source"@ {
        Seq::empty()
    } else {
        version
    }
}

/// The fields of a basic dependency dialog: name, source, version (empty for `source`),
/// checksum, kind and path inside the archive.
pub open spec fn dependency_fields(original: Option<Seq<char>>, dependency: FormDependency) -> Seq<FieldModel> {
    seq![
        text_field_model("依赖名称"@, text_or_empty(original)),
        text_field_model("来源（HTTP / SSH / SCP / 本地）"@, dependency.source@),
        text_field_model("版本（可空，默认 source）"@, shown_version(dependency.version@)),
        text_field_model("SHA-256（可空）"@, text_or_empty(dependency.checksum.deep_view())),
        ("类型"@, dependency.kind@, dependency_kinds(), dependency.kind@.len() as int, DialogFieldKind::Choice),
        text_field_model("归档内路径（可空）"@, text_or_empty(dependency.path.deep_view())),
    ]
}

/// Fields with their labels, texts and whether each is selected, for those that take part.
pub open spec fn shown_fields(view: DialogView, count: int) -> Seq<(Seq<char>, Seq<char>, bool)>
    decreases count,
{
    if count <= 0 {
        Seq::empty()
    } else {
        let rest = shown_fields(view, count - 1);
        let index = count - 1;
        if view.shows(index) {
            rest.push((view.fields[index].0, view.fields[index].1, index == view.selected))
        } else {
            rest
        }
    }
}

/// Number of fields among the first `count` that take part.
pub open spec fn shown_count(view: DialogView, count: int) -> int
    decreases count,
{
    if count <= 0 {
        0
    } else {
        shown_count(view, count - 1) + if view.shows(count - 1) {
            1int
        } else {
            0
        }
    }
}

/// The state after applying an open table back to its field, or the table's problem.
pub open spec fn table_applied(view: DialogView) -> Result<DialogView, Seq<char>> {
    match view.map_editor {
        None => Ok(view),
        Some(editor) => match table_entries(editor.rows) {
            Err(message) => Err(message),
            Ok(entries) => {
                let text = json_string_object(entries);
                let target = view.fields[editor.field];
                Ok(
                    DialogView {
                        fields: view.fields.update(
                            editor.field,
                            (target.0, text, target.2, text.len() as int, target.4),
                        ),
                        map_editor: None,
                        ..view
                    },
                )
            },
        },
    }
}

impl Dialog {
    /// A dialog over the given fields, remembering their texts to tell later changes.
    pub fn new(kind: DialogKind, fields: Vec<DialogField>) -> (result: Dialog)
        requires
            fields@.len() > 0,
            forall|index: int|
                0 <= index < fields@.len() ==> #[trigger] fields@[index].cursor <= fields@[index].value@.len(),
        ensures
            result@.valid(),
            result@ == (DialogView {
                kind: kind.deep_view(),
                fields: fields.deep_view(),
                initial: fields.deep_view().map_values(|field: FieldModel| field.1),
                selected: 0,
                map_editor: None,
            }),
    {
        let mut initial_values: Vec<String> = Vec::new();
        let mut index: usize = 0;
        while index < fields.len()
            invariant
                index <= fields@.len(),
                initial_values@.len() == index,
                forall|k: int| 0 <= k < index ==> initial_values@[k]@ == fields@[k].value@,
            decreases fields@.len() - index,
        {
            initial_values.push(value_of(&fields[index]));
            index += 1;
        }
        let result = Dialog { kind, fields, initial_values, selected: 0, map_editor: None };
        assert(result@.initial =~= result@.fields.map_values(|field: FieldModel| field.1));
        result
    }

    /// Dialog editing a managed dependency, new when there is no original name.
    pub fn dependency(original: Option<&str>, dependency: &FormDependency) -> (result: Dialog)
        ensures
            result@.valid(),
            result@.kind == KindModel::DependencyBasic(match original {
                Some(name) => Some(name@),
                None => None,
            }),
            result@.fields == dependency_fields(
                match original {
                    Some(name) => Some(name@),
                    None => None,
                },
                *dependency,
            ),
            result@.initial == result@.fields.map_values(|field: FieldModel| field.1),
            result@.selected == 0,
            result@.map_editor is None,
    {
        let is_source = same_text(&dependency.version, &"source".to_owned());
        let version = if is_source {
            ""
        } else {
            dependency.version.as_str()
        };
        let name = match original {
            Some(name) => name,
            None => "",
        };
        let checksum = match &dependency.checksum {
            Some(sum) => sum.as_str(),
            None => "",
        };
        let path = match &dependency.path {
            Some(path) => path.as_str(),
            None => "",
        };
        proof {
            reveal_strlit("");
        }
        let ghost original_model = match original {
            Some(name) => Some(name@),
            None => None::<Seq<char>>,
        };
        assert(name@ == text_or_empty(original_model));
        assert(version@ == shown_version(dependency.version@));
        assert(checksum@ == text_or_empty(dependency.checksum.deep_view()));
        assert(path@ == text_or_empty(dependency.path.deep_view()));
        let kinds: [&str; 4] = ["auto", "binary", "file", "directory"];
        assert(kinds@.map_values(|choice: &str| choice@) =~= dependency_kinds());
        let empty: [&str; 0] = [];
        assert(empty@.map_values(|choice: &str| choice@) =~= Seq::<Seq<char>>::empty());
        let mut fields: Vec<DialogField> = Vec::new();
        fields.push(field("依赖名称", name, &empty));
        fields.push(field("来源（HTTP / SSH / SCP / 本地）", dependency.source.as_str(), &empty));
        fields.push(field("版本（可空，默认 source）", version, &empty));
        fields.push(field("SHA-256（可空）", checksum, &empty));
        fields.push(field("类型", dependency.kind.as_str(), &kinds));
        fields.push(field("归档内路径（可空）", path, &empty));
        let kind = DialogKind::DependencyBasic(match original {
            Some(name) => Some(name.to_owned()),
            None => None,
        });
        assert(fields.deep_view() =~= dependency_fields(original_model, *dependency));
        Dialog::new(kind, fields)
    }

    /// Dialog for a new managed dependency.
    pub fn new_dependency() -> (result: Dialog)
        ensures
            result@.valid(),
            result@.kind == KindModel::DependencyBasic(None),
            result@.selected == 0,
            result@.map_editor is None,
    {
        Dialog::dependency(None, &FormDependency::default_value())
    }

    /// Title of the dialog.
    pub fn title(&self) -> (result: &'static str)
        ensures
            result@ == kind_title(self@.kind),
    {
        match &self.kind {
            DialogKind::Project => "编辑项目",
            DialogKind::Profile(Some(_)) => "编辑 profile",
            DialogKind::Profile(None) => "新建 profile",
            DialogKind::Task(Some(_)) => "编辑 Task",
            DialogKind::Task(None) => "新建 Task",
            DialogKind::Health(_) => "编辑健康检查",
            DialogKind::DependencyBasic(Some(_)) => "编辑管理依赖",
            DialogKind::DependencyBasic(None) => "新建管理依赖",
            DialogKind::DependencyAdvanced(_) => "高级下载与 SSH 策略",
        }
    }

    /// Whether any field's text differs from when the dialog opened.
    pub fn is_dirty(&self) -> (result: bool)
        ensures
            result == (self@.fields.map_values(|field: FieldModel| field.1) != self@.initial),
    {
        let ghost values = self@.fields.map_values(|field: FieldModel| field.1);
        if self.fields.len() != self.initial_values.len() {
            assert(values.len() != self@.initial.len());
            return true;
        }
        let mut index: usize = 0;
        while index < self.fields.len()
            invariant
                index <= self.fields@.len(),
                self.fields@.len() == self.initial_values@.len(),
                values == self@.fields.map_values(|field: FieldModel| field.1),
                forall|k: int| 0 <= k < index ==> values[k] == self@.initial[k],
            decreases self.fields@.len() - index,
        {
            if !same_text(&self.fields[index].value, &self.initial_values[index]) {
                assert(values[index as int] != self@.initial[index as int]);
                return true;
            }
            index += 1;
        }
        assert(values =~= self@.initial);
        false
    }

    /// Whether the dialog edits a task.
    pub fn is_task(&self) -> (result: bool)
        ensures
            result == (self@.kind is Task),
    {
        match &self.kind {
            DialogKind::Task(_) => true,
            _ => false,
        }
    }

    /// Whether the field at `index` takes part in the dialog.
    fn field_visible(&self, index: usize) -> (result: bool)
        requires
            self@.valid(),
        ensures
            result == self@.shows(index as int),
    {
        match &self.kind {
            DialogKind::Health(_) => {
                let probe = &self.fields[0].value;
                index == 0 || (10 <= index && index <= 14) || (same_text(probe, &"exec".to_owned())
                    && 1 <= index && index <= 3) || (same_text(probe, &"http".to_owned()) && 4
                    <= index && index <= 9)
            },
            _ => true,
        }
    }

    /// Labels and texts of the fields that take part, and which is selected.
    pub fn fields(&self) -> (result: Vec<(String, String, bool)>)
        requires
            self@.valid(),
        ensures
            result@.map_values(|item: (String, String, bool)| (item.0@, item.1@, item.2))
                == shown_fields(self@, self@.fields.len() as int),
    {
        let mut result: Vec<(String, String, bool)> = Vec::new();
        let mut index: usize = 0;
        assert(result@.map_values(|item: (String, String, bool)| (item.0@, item.1@, item.2))
            =~= shown_fields(self@, 0));
        while index < self.fields.len()
            invariant
                self@.valid(),
                index <= self.fields@.len(),
                result@.map_values(|item: (String, String, bool)| (item.0@, item.1@, item.2))
                    == shown_fields(self@, index as int),
            decreases self.fields@.len() - index,
        {
            if self.field_visible(index) {
                let ghost before = result@.map_values(
                    |item: (String, String, bool)| (item.0@, item.1@, item.2),
                );
                let item = (
                    self.fields[index].label.clone(),
                    self.fields[index].value.clone(),
                    index == self.selected,
                );
                result.push(item);
                assert(result@.map_values(|item: (String, String, bool)| (item.0@, item.1@, item.2))
                    =~= before.push((self@.fields[index as int].0, self@.fields[index as int].1, index == self.selected)));
            }
            index += 1;
        }
        result
    }

    /// Number of fields that take part, and the selected one's place among them.
    pub fn field_position(&self) -> (result: (usize, usize))
        requires
            self@.valid(),
        ensures
            result.0 == shown_count(self@, self@.fields.len() as int),
            result.1 == (if self@.shows(self@.selected) {
                shown_count(self@, self@.selected)
            } else {
                0
            }),
    {
        let mut count: usize = 0;
        let mut selected: usize = 0;
        let mut index: usize = 0;
        while index < self.fields.len()
            invariant
                self@.valid(),
                index <= self.fields@.len(),
                count == shown_count(self@, index as int),
                count <= index,
                selected == (if index > self.selected && self@.shows(self@.selected) {
                    shown_count(self@, self@.selected)
                } else {
                    0
                }),
            decreases self.fields@.len() - index,
        {
            if self.field_visible(index) {
                if index == self.selected {
                    selected = count;
                }
                count += 1;
            }
            index += 1;
        }
        (count, selected)
    }

    /// Whether the selected field is a choice.
    pub fn selected_is_choice(&self) -> (result: bool)
        requires
            self@.valid(),
        ensures
            result == (self@.current().4 == DialogFieldKind::Choice),
    {
        self.fields[self.selected].kind == DialogFieldKind::Choice
    }

    /// Whether the selected field names a directory.
    pub fn selected_is_directory(&self) -> (result: bool)
        requires
            self@.valid(),
        ensures
            result == (self@.current().4 == DialogFieldKind::Directory),
    {
        self.fields[self.selected].kind == DialogFieldKind::Directory
    }

    /// The field and its text for browsing directories from the selected field; an error when
    /// the selected field does not name a directory.
    pub fn directory_request(&self) -> (result: Result<(usize, String), String>)
        requires
            self@.valid(),
        ensures
            self@.current().4 == DialogFieldKind::Directory ==> (result matches Ok((field, value))
                && field == self@.selected && value@ == self@.current().1),
            self@.current().4 != DialogFieldKind::Directory ==> (result matches Err(message)
                && message@ == "当前字段不是目录"@),
    {
        if !self.selected_is_directory() {
            return Err("当前字段不是目录".to_owned());
        }
        Ok((self.selected, self.fields[self.selected].value.clone()))
    }

    /// Writes a chosen directory into a field, the cursor after it.
    pub fn choose_directory(&mut self, field: usize, value: String)
        requires
            old(self)@.valid(),
            field < old(self)@.fields.len(),
        ensures
            final(self)@.valid(),
            final(self)@ == (DialogView {
                fields: old(self)@.fields.update(
                    field as int,
                    (
                        old(self)@.fields[field as int].0,
                        value@,
                        old(self)@.fields[field as int].2,
                        value@.len() as int,
                        old(self)@.fields[field as int].4,
                    ),
                ),
                ..old(self)@
            }),
    {
        let cursor = chars_of(value.as_str()).len();
        let mut updated = copy_field(&self.fields[field]);
        updated.value = value;
        updated.cursor = cursor;
        self.fields.set(field, updated);
        assert(self@.fields =~= old(self)@.fields.update(
            field as int,
            (
                old(self)@.fields[field as int].0,
                updated.value@,
                old(self)@.fields[field as int].2,
                cursor as int,
                old(self)@.fields[field as int].4,
            ),
        ));
    }

    /// Whether the selected field is a key-value table.
    pub fn selected_is_map(&self) -> (result: bool)
        requires
            self@.valid(),
        ensures
            result == (self@.current().4 == DialogFieldKind::Table),
    {
        self.fields[self.selected].kind == DialogFieldKind::Table
    }

    /// The selected field when it takes typing: its label, text and cursor; nothing for a
    /// choice or while a table is open.
    pub fn selected_input(&self) -> (result: Option<(&str, &str, usize)>)
        requires
            self@.valid(),
        ensures
            match result {
                Some((label, value, cursor)) => self@.map_editor is None && self@.current().4
                    != DialogFieldKind::Choice && label@ == self@.current().0 && value@
                    == self@.current().1 && cursor == self@.current().3,
                None => self@.map_editor is Some || self@.current().4 == DialogFieldKind::Choice,
            },
    {
        if self.map_editor.is_some() {
            return None;
        }
        let field = &self.fields[self.selected];
        if field.kind != DialogFieldKind::Choice {
            Some((field.label.as_str(), field.value.as_str(), field.cursor))
        } else {
            None
        }
    }

    /// The open key-value table.
    pub fn map_editor(&self) -> (result: Option<&MapEditor>)
        ensures
            match result {
                Some(editor) => self@.map_editor == Some(editor@),
                None => self@.map_editor is None,
            },
    {
        match &self.map_editor {
            Some(editor) => Some(editor),
            None => None,
        }
    }

    /// Whether a key-value table is open.
    pub fn has_map_editor(&self) -> (result: bool)
        ensures
            result == (self@.map_editor is Some),
    {
        self.map_editor.is_some()
    }
}

impl Dialog {
    /// Replaces the selected field.
    fn set_current(&mut self, replacement: DialogField)
        requires
            old(self)@.valid(),
            replacement.cursor <= replacement.value@.len(),
        ensures
            final(self)@ == old(self)@.with_current(replacement.deep_view()),
            final(self)@.valid(),
    {
        self.fields.set(self.selected, replacement);
        assert(self.fields.deep_view() =~= old(self)@.fields.update(
            old(self)@.selected,
            replacement.deep_view(),
        ));
    }

    /// Opens the key-value table of the selected field.
    pub fn open_map_editor(&mut self) -> (result: Result<(), String>)
        requires
            old(self)@.valid(),
        ensures
            final(self)@.valid(),
            old(self)@.current().4 != DialogFieldKind::Table ==> (result matches Err(message)
                && message@ == "当前字段不是键值表"@ && final(self)@ == old(self)@),
            old(self)@.current().4 == DialogFieldKind::Table ==> match table_text_entries(
                old(self)@.current().1,
                old(self)@.current().0,
            ) {
                Err(expected) => result matches Err(message) && message@ == expected && final(self)@
                    == old(self)@,
                Ok(entries) => result is Ok && (final(self)@.map_editor matches Some(editor) && editor.field
                    == old(self)@.selected && editor.rows == (if entries.len() == 0 {
                    seq![(Seq::<char>::empty(), Seq::<char>::empty())]
                } else {
                    entries
                }) && editor.selected == 0 && editor.column == crate::map_editor::MapColumn::Key
                    && editor.cursor == editor.rows[0].0.len() && final(self)@ == (DialogView {
                    map_editor: Some(editor),
                    ..old(self)@
                })),
            },
    {
        if !self.selected_is_map() {
            return Err("当前字段不是键值表".to_owned());
        }
        let values = match parse_map(
            self.fields[self.selected].value.as_str(),
            self.fields[self.selected].label.as_str(),
        ) {
            Ok(values) => values,
            Err(message) => return Err(message),
        };
        assert(values.deep_view() =~= values@.map_values(|entry: (String, String)| (entry.0@, entry.1@)));
        self.map_editor = Some(MapEditor::new(self.selected, values));
        Ok(())
    }

    /// Writes the open table back to its field and closes it.
    fn store_table(&mut self) -> (result: Result<(), String>)
        requires
            old(self)@.valid(),
            old(self)@.map_editor is Some,
        ensures
            final(self)@.valid(),
            match table_applied(old(self)@) {
                Ok(view) => result is Ok && final(self)@ == view,
                Err(expected) => result matches Err(message) && message@ == expected && final(self)@
                    == old(self)@,
            },
    {
        let (values, target) = match &self.map_editor {
            Some(editor) => {
                proof {
                    lemma_table_keys_increasing(editor@.rows);
                }
                match editor.values() {
                    Ok(values) => (values, editor.field()),
                    Err(message) => return Err(message),
                }
            },
            None => return Ok(()),
        };
        assert(values@.map_values(|entry: (String, String)| (entry.0@, entry.1@)) =~= values.deep_view());
        let text = map_text(values.as_slice());
        let cursor = chars_of(text.as_str()).len();
        let mut updated = copy_field(&self.fields[target]);
        updated.value = text;
        updated.cursor = cursor;
        self.fields.set(target, updated);
        self.map_editor = None;
        proof {
            if let Ok(expected) = table_applied(old(self)@) {
                assert(self@.fields =~= expected.fields);
            }
        }
        Ok(())
    }

    /// Handles a key while a table is open: Esc closes it, Enter writes it back, other keys
    /// edit it; nothing when no table is open.
    pub fn handle_map_key(&mut self, key: KeyPress) -> (result: Option<Result<(), String>>)
        requires
            old(self)@.valid(),
        ensures
            final(self)@.valid(),
            match old(self)@.map_editor {
                None => result is None && final(self)@ == old(self)@,
                Some(editor) => if key.code == Key::Esc {
                    result == Some(Ok::<(), String>(())) && final(self)@ == (DialogView {
                        map_editor: None,
                        ..old(self)@
                    })
                } else if key.code == Key::Enter {
                    match table_applied(old(self)@) {
                        Ok(view) => result == Some(Ok::<(), String>(())) && final(self)@ == view,
                        Err(expected) => result matches Some(Err(message)) && message@ == expected
                            && final(self)@ == old(self)@,
                    }
                } else {
                    result == Some(Ok::<(), String>(())) && final(self)@ == (DialogView {
                        map_editor: Some(editor.key_applied(key)),
                        ..old(self)@
                    })
                },
            },
    {
        if self.map_editor.is_none() {
            return None;
        }
        if key.code == Key::Esc {
            self.map_editor = None;
            return Some(Ok(()));
        }
        if key.code == Key::Enter {
            return match self.store_table() {
                Ok(()) => Some(Ok(())),
                Err(message) => Some(Err(message)),
            };
        }
        if let Some(editor) = &mut self.map_editor {
            editor.handle_key(key);
        }
        Some(Ok(()))
    }

    /// Writes an open table back to its field, for the common save shortcut; nothing to do
    /// when no table is open.
    pub fn apply_map_editor(&mut self) -> (result: Result<(), String>)
        requires
            old(self)@.valid(),
        ensures
            final(self)@.valid(),
            match table_applied(old(self)@) {
                Ok(view) => result is Ok && final(self)@ == view,
                Err(expected) => result matches Err(message) && message@ == expected && final(self)@
                    == old(self)@,
            },
    {
        if self.map_editor.is_none() {
            return Ok(());
        }
        self.store_table()
    }

    /// Moves the selection to the next field that takes part, wrapping around.
    pub fn next_field(&mut self, forward: bool)
        requires
            old(self)@.valid(),
        ensures
            final(self)@ == (DialogView {
                selected: old(self)@.next_shown(
                    old(self)@.selected,
                    forward,
                    old(self)@.fields.len() as nat,
                ),
                ..old(self)@
            }),
            final(self)@.valid(),
    {
        let count = self.fields.len();
        let mut next = self.selected;
        let mut remaining = count;
        loop
            invariant
                self@ == old(self)@,
                self@.valid(),
                count == self@.fields.len(),
                next < count,
                remaining <= count,
                self@.next_shown(self@.selected, forward, count as nat) == self@.next_shown(
                    next as int,
                    forward,
                    remaining as nat,
                ),
            decreases remaining,
        {
            let step = if forward {
                (next + 1) % count
            } else if next == 0 {
                count - 1
            } else {
                next - 1
            };
            if remaining == 0 || self.field_visible(step) {
                self.selected = step;
                return;
            }
            next = step;
            remaining -= 1;
        }
    }

    /// Cycles the selected field through its choices; nothing when its text is not one.
    pub fn cycle_choice(&mut self, forward: bool)
        requires
            old(self)@.valid(),
        ensures
            final(self)@ == old(self)@.choice_cycled(forward),
            final(self)@.valid(),
    {
        let current = &self.fields[self.selected];
        let ghost choices = self@.current().2;
        let ghost value = self@.current().1;
        let mut position: usize = 0;
        let mut found = false;
        while position < current.choices.len()
            invariant_except_break
                !found,
            invariant
                choices == current.choices.deep_view(),
                value == current.value@,
                position <= choices.len(),
                crate::package_workspace::key_position(choices, value, position as int)
                    == crate::package_workspace::key_position(choices, value, 0),
            ensures
                found ==> position == crate::package_workspace::key_position(choices, value, 0),
                !found ==> crate::package_workspace::key_position(choices, value, 0) == -1,
            decreases choices.len() - position,
        {
            if same_text(&current.choices[position], &current.value) {
                found = true;
                break;
            }
            position += 1;
        }
        if !found {
            return;
        }
        let count = current.choices.len();
        let next = if forward {
            (position + 1) % count
        } else if position == 0 {
            count - 1
        } else {
            position - 1
        };
        let mut updated = copy_field(current);
        updated.value = current.choices[next].clone();
        updated.cursor = chars_of(updated.value.as_str()).len();
        self.set_current(updated);
    }

    /// Moves the cursor of a text field by one character; a choice field cycles instead.
    pub fn move_cursor(&mut self, forward: bool)
        requires
            old(self)@.valid(),
        ensures
            final(self)@ == old(self)@.cursor_moved(forward),
            final(self)@.valid(),
    {
        if self.fields[self.selected].kind == DialogFieldKind::Choice {
            self.cycle_choice(forward);
            return;
        }
        let current = &self.fields[self.selected];
        let count = chars_of(current.value.as_str()).len();
        let mut updated = copy_field(current);
        updated.cursor = if forward {
            if current.cursor < count {
                current.cursor + 1
            } else {
                count
            }
        } else if current.cursor > 0 {
            current.cursor - 1
        } else {
            0
        };
        self.set_current(updated);
    }

    /// Puts the cursor of a text field at its start or end.
    pub fn move_cursor_edge(&mut self, end: bool)
        requires
            old(self)@.valid(),
        ensures
            final(self)@ == (if old(self)@.current().4 == DialogFieldKind::Choice {
                old(self)@
            } else {
                let current = old(self)@.current();
                old(self)@.with_current(
                    (
                        current.0,
                        current.1,
                        current.2,
                        if end {
                            current.1.len() as int
                        } else {
                            0
                        },
                        current.4,
                    ),
                )
            }),
            final(self)@.valid(),
    {
        let current = &self.fields[self.selected];
        if current.kind == DialogFieldKind::Choice {
            return;
        }
        let mut updated = copy_field(current);
        updated.cursor = if end {
            chars_of(current.value.as_str()).len()
        } else {
            0
        };
        self.set_current(updated);
    }

    /// Deletes the character before the cursor of a text field.
    pub fn backspace(&mut self)
        requires
            old(self)@.valid(),
        ensures
            final(self)@ == (if old(self)@.current().4 == DialogFieldKind::Choice || old(self)@.current().3 == 0 {
                old(self)@
            } else {
                let current = old(self)@.current();
                old(self)@.with_current(
                    (current.0, current.1.remove(current.3 - 1), current.2, current.3 - 1, current.4),
                )
            }),
            final(self)@.valid(),
    {
        let current = &self.fields[self.selected];
        if current.kind == DialogFieldKind::Choice || current.cursor == 0 {
            return;
        }
        let mut updated = copy_field(current);
        updated.value = remove_char_at(current.value.as_str(), current.cursor - 1);
        updated.cursor = current.cursor - 1;
        self.set_current(updated);
    }

    /// Inserts a character at the cursor of a text field.
    pub fn insert(&mut self, character: char)
        requires
            old(self)@.valid(),
        ensures
            final(self)@ == (if old(self)@.current().4 == DialogFieldKind::Choice {
                old(self)@
            } else {
                let current = old(self)@.current();
                old(self)@.with_current(
                    (current.0, current.1.insert(current.3, character), current.2, current.3 + 1, current.4),
                )
            }),
            final(self)@.valid(),
    {
        let current = &self.fields[self.selected];
        if current.kind == DialogFieldKind::Choice {
            return;
        }
        let mut updated = copy_field(current);
        updated.value = insert_char_at(current.value.as_str(), current.cursor, character);
        let count = chars_of(updated.value.as_str()).len();
        assert(current.cursor < count);
        updated.cursor = current.cursor + 1;
        self.set_current(updated);
    }
}

/// Lemma: within `distance` steps, where the start field is that far away, the search
/// reaches a field that takes part.
proof fn lemma_search_reaches_start(view: DialogView, index: int, forward: bool, steps: nat, distance: nat)
    requires
        view.valid(),
        0 <= index < view.fields.len(),
        1 <= distance <= steps,
        distance == (if forward {
            if index == 0 {
                view.fields.len() as int
            } else {
                view.fields.len() - index
            }
        } else if index == 0 {
            view.fields.len() as int
        } else {
            index
        }),
    ensures
        view.shows(view.next_shown(index, forward, steps)),
    decreases steps,
{
    let count = view.fields.len() as int;
    let next = wrapped_step(index, forward, count);
    assert(0 <= next < count) by (nonlinear_arith)
        requires
            0 <= index < count,
            next == wrapped_step(index, forward, count),
    ;
    if distance == 1 {
        if forward {
            assert(index == count - 1);
            assert((index + 1) % count == 0) by (nonlinear_arith)
                requires
                    index + 1 == count,
                    count > 0,
            ;
        } else {
            assert(index == 1 || count == 1);
        }
        assert(next == 0);
    } else if !(steps == 0 || view.shows(next)) {
        let next_distance = (distance - 1) as nat;
        if forward {
            assert(next == index + 1) by (nonlinear_arith)
                requires
                    0 <= index,
                    index + 1 < count,
                    next == (index + 1) % count,
            ;
        }
        lemma_search_reaches_start(view, next, forward, (steps - 1) as nat, next_distance);
    }
}

/// Moving between fields always lands on a field that takes part in the dialog.
pub proof fn lemma_next_field_shown(view: DialogView, forward: bool)
    requires
        view.valid(),
    ensures
        view.shows(view.next_shown(view.selected, forward, view.fields.len() as nat)),
{
    let count = view.fields.len() as int;
    let index = view.selected;
    let distance: nat = (if forward {
        if index == 0 {
            count
        } else {
            count - index
        }
    } else if index == 0 {
        count
    } else {
        index
    }) as nat;
    lemma_search_reaches_start(view, index, forward, count as nat, distance);
}

/// An optional field's value: nothing when blank, else the trimmed text.
pub open spec fn optional_text(value: Seq<char>) -> Option<Seq<char>> {
    if trimmed(value).len() == 0 {
        None
    } else {
        Some(trimmed(value))
    }
}

/// The fields of an advanced dependency dialog; `timeout` is the transfer timeout in the
/// configuration's duration syntax.
pub open spec fn advanced_fields(dependency: FormDependency, timeout: Seq<char>) -> Seq<FieldModel> {
    let download = dependency.download;
    let headers = download.headers@.map_values(|entry: (String, String)| (entry.0@, entry.1@));
    let verify = dependency.verify.deep_view();
    seq![
        text_field_model("镜像（JSON 数组）"@, json_string_array(dependency.mirrors.deep_view())),
        ("解包"@, dependency.unpack@, seq!["auto"@, "never"@], dependency.unpack@.len() as int, DialogFieldKind::Choice),
        text_field_model("失败重试次数"@, digits_of(download.retries as nat)),
        text_field_model("单次总超时"@, timeout),
        text_field_model("最大下载字节"@, digits_of(download.max_bytes as nat)),
        (
            "HTTP 请求头（按 F4 编辑键值表）"@,
            json_string_object(headers),
            Seq::<Seq<char>>::empty(),
            json_string_object(headers).len() as int,
            DialogFieldKind::Table,
        ),
        text_field_model("SSH 私钥（可空）"@, text_or_empty(dependency.ssh.identity_file.deep_view())),
        text_field_model("SSH known_hosts（可空）"@, text_or_empty(dependency.ssh.known_hosts_file.deep_view())),
        text_field_model("验证命令（可空）"@, match verify {
            Some(verify) => text_or_empty(verify.0),
            None => Seq::empty(),
        }),
        text_field_model("验证参数（空格分隔）"@, match verify {
            Some(verify) => json_string_array(verify.1),
            None => "[]"@,
        }),
        text_field_model("验证输出包含（可空）"@, match verify {
            Some(verify) => text_or_empty(verify.2),
            None => Seq::empty(),
        }),
    ]
}

/// Message for a retry count out of range.
pub open spec fn retries_message() -> Seq<char> {
    "失败重试次数必须是 0 到 255 的整数"@
}

/// Message for a download limit that is no non-negative integer.
pub open spec fn max_bytes_message() -> Seq<char> {
    "最大下载字节必须是非负整数"@
}

/// Message for a transfer timeout the duration syntax refuses.
pub open spec fn timeout_message(error: Seq<char>) -> Seq<char> {
    "单次总超时无效："@ + error
}

/// The text of an optional value, empty when there is none.
fn text_of(value: &Option<String>) -> (result: &str)
    ensures
        result@ == text_or_empty(value.deep_view()),
{
    proof {
        reveal_strlit("");
    }
    match value {
        Some(text) => text.as_str(),
        None => "",
    }
}

impl Dialog {
    /// Dialog editing a task, new when there is no original name; `durations` holds its
    /// duration settings in the configuration's duration syntax.
    pub fn task(
        original: Option<&str>,
        task: &crate::form_task::FormTask,
        durations: &crate::form_task::TaskDurationTexts,
    ) -> (result: Dialog)
        requires
            keys_increasing(task@.env),
        ensures
            result@.valid(),
            result@.kind == KindModel::Task(match original {
                Some(name) => Some(name@),
                None => None,
            }),
            result@.fields == crate::form_task::task_dialog_fields(
                match original {
                    Some(name) => Some(name@),
                    None => None,
                },
                task@,
                (durations.restart_delay@, durations.restart_reset_after@, durations.shutdown_timeout@),
            ),
            result@.initial == result@.fields.map_values(|field: FieldModel| field.1),
            result@.selected == 0,
            result@.map_editor is None,
    {
        let fields = crate::form_task::task_fields(original, task, durations);
        let ghost expected = crate::form_task::task_dialog_fields(
            match original {
                Some(name) => Some(name@),
                None => None,
            },
            task@,
            (durations.restart_delay@, durations.restart_reset_after@, durations.shutdown_timeout@),
        );
        assert(expected.len() == 14);
        assert(fields.deep_view().len() == fields@.len());
        assert forall|index: int| 0 <= index < fields@.len() implies #[trigger] fields@[index].cursor
            <= fields@[index].value@.len() by {
            assert(fields.deep_view()[index] == fields@[index].deep_view());
            assert(0 <= index < 14);
            if index == 0 {} else if index == 1 {} else if index == 2 {} else if index == 3 {}
            else if index == 4 {} else if index == 5 {} else if index == 6 {} else if index == 7 {}
            else if index == 8 {} else if index == 9 {} else if index == 10 {} else if index == 11 {}
            else if index == 12 {} else {}
        }
        let kind = DialogKind::Task(match original {
            Some(name) => Some(name.to_owned()),
            None => None,
        });
        Dialog::new(kind, fields)
    }

    /// Dialog editing the health check of the named task; `durations` holds its wait, period
    /// and timeout in the configuration's duration syntax.
    pub fn health(
        name: &str,
        task: &crate::form_task::FormTask,
        durations: &crate::form_health::HealthDurationTexts,
    ) -> (result: Dialog)
        requires
            keys_increasing(crate::form_health::shown_headers(task@.healthcheck)),
        ensures
            result@.valid(),
            result@.kind == KindModel::Health(name@),
            result@.fields == crate::form_health::health_dialog_fields(
                task@.healthcheck,
                (durations.initial_delay@, durations.period@, durations.timeout@),
            ),
            result@.initial == result@.fields.map_values(|field: FieldModel| field.1),
            result@.selected == 0,
            result@.map_editor is None,
    {
        let fields = crate::form_health::health_fields(task, durations);
        let ghost expected = crate::form_health::health_dialog_fields(
            task@.healthcheck,
            (durations.initial_delay@, durations.period@, durations.timeout@),
        );
        assert(expected.len() == 15);
        assert(fields.deep_view().len() == fields@.len());
        assert forall|index: int| 0 <= index < fields@.len() implies #[trigger] fields@[index].cursor
            <= fields@[index].value@.len() by {
            assert(fields.deep_view()[index] == fields@[index].deep_view());
            assert(0 <= index < 15);
            if index == 0 {} else if index == 1 {} else if index == 2 {} else if index == 3 {}
            else if index == 4 {} else if index == 5 {} else if index == 6 {} else if index == 7 {}
            else if index == 8 {} else if index == 9 {} else if index == 10 {} else if index == 11 {}
            else if index == 12 {} else if index == 13 {} else {}
        }
        Dialog::new(DialogKind::Health(name.to_owned()), fields)
    }

    /// Dialog editing a profile, new when there is no original name; `names` are the
    /// project's profile names in order, and `durations` the profile's restart wait, count
    /// reset and stop timeout in the configuration's duration syntax.
    pub fn profile(
        original: Option<&str>,
        profile: &crate::form_profile::FormProfile,
        names: &Vec<String>,
        durations: &crate::form_profile::ProfileDurationTexts,
    ) -> (result: Dialog)
        requires
            keys_increasing(profile@.env),
            keys_increasing(profile@.task_defaults.env),
        ensures
            result@.valid(),
            result@.kind == KindModel::Profile(match original {
                Some(name) => Some(name@),
                None => None,
            }),
            result@.fields == crate::form_profile::profile_dialog_fields(
                match original {
                    Some(name) => Some(name@),
                    None => None,
                },
                profile@,
                names.deep_view(),
                (durations.restart_delay@, durations.restart_reset_after@, durations.shutdown_timeout@),
            ),
            result@.initial == result@.fields.map_values(|field: FieldModel| field.1),
            result@.selected == 0,
            result@.map_editor is None,
    {
        let fields = crate::form_profile::profile_fields(original, profile, names, durations);
        let ghost expected = crate::form_profile::profile_dialog_fields(
            match original {
                Some(name) => Some(name@),
                None => None,
            },
            profile@,
            names.deep_view(),
            (durations.restart_delay@, durations.restart_reset_after@, durations.shutdown_timeout@),
        );
        assert(expected.len() == 12);
        assert(fields.deep_view().len() == fields@.len());
        assert forall|index: int| 0 <= index < fields@.len() implies #[trigger] fields@[index].cursor
            <= fields@[index].value@.len() by {
            assert(fields.deep_view()[index] == fields@[index].deep_view());
            assert(0 <= index < 12);
            if index == 0 {} else if index == 1 {} else if index == 2 {} else if index == 3 {}
            else if index == 4 {} else if index == 5 {} else if index == 6 {} else if index == 7 {}
            else if index == 8 {} else if index == 9 {} else if index == 10 {} else {}
        }
        let kind = DialogKind::Profile(match original {
            Some(name) => Some(name.to_owned()),
            None => None,
        });
        Dialog::new(kind, fields)
    }

    /// Dialog for the download, SSH and version check policy of the named dependency;
    /// `timeout` is its transfer timeout in the configuration's duration syntax.
    pub fn dependency_advanced(name: &str, dependency: &FormDependency, timeout: &str) -> (result: Dialog)
        requires
            keys_increasing(
                dependency.download.headers@.map_values(
                    |entry: (String, String)| (entry.0@, entry.1@),
                ),
            ),
        ensures
            result@.valid(),
            result@.kind == KindModel::DependencyAdvanced(name@),
            result@.fields == advanced_fields(*dependency, timeout@),
            result@.initial == result@.fields.map_values(|field: FieldModel| field.1),
            result@.selected == 0,
            result@.map_editor is None,
    {
        let empty: [&str; 0] = [];
        assert(empty@.map_values(|choice: &str| choice@) =~= Seq::<Seq<char>>::empty());
        let unpacking: [&str; 2] = ["auto", "never"];
        assert(unpacking@.map_values(|choice: &str| choice@) =~= seq!["auto"@, "never"@]);
        let mirrors = args_text(dependency.mirrors.as_slice());
        assert(dependency.mirrors@.map_values(|value: String| value@) =~= dependency.mirrors.deep_view());
        let retries = natural_text(dependency.download.retries as u64);
        let max_bytes = natural_text(dependency.download.max_bytes);
        let headers = map_text(dependency.download.headers.as_slice());
        let (command, arguments, contains) = match &dependency.verify {
            Some(verify) => {
                assert(verify.args@.map_values(|value: String| value@) =~= verify.args.deep_view());
                (text_of(&verify.command), args_text(verify.args.as_slice()), text_of(&verify.contains))
            },
            None => {
                proof {
                    reveal_strlit("");
                    reveal_strlit("[]");
                }
                ("", "[]".to_owned(), "")
            },
        };
        let mut fields: Vec<DialogField> = Vec::new();
        fields.push(field("镜像（JSON 数组）", mirrors.as_str(), &empty));
        fields.push(field("解包", dependency.unpack.as_str(), &unpacking));
        fields.push(field("失败重试次数", retries.as_str(), &empty));
        fields.push(field("单次总超时", timeout, &empty));
        fields.push(field("最大下载字节", max_bytes.as_str(), &empty));
        fields.push(map_field("HTTP 请求头（按 F4 编辑键值表）", headers));
        fields.push(field("SSH 私钥（可空）", text_of(&dependency.ssh.identity_file), &empty));
        fields.push(field("SSH known_hosts（可空）", text_of(&dependency.ssh.known_hosts_file), &empty));
        fields.push(field("验证命令（可空）", command, &empty));
        fields.push(field("验证参数（空格分隔）", arguments.as_str(), &empty));
        fields.push(field("验证输出包含（可空）", contains, &empty));
        let ghost expected = advanced_fields(*dependency, timeout@);
        assert(fields.deep_view()[0] == expected[0]);
        assert(fields.deep_view()[1] == expected[1]);
        assert(fields.deep_view()[2] == expected[2]);
        assert(fields.deep_view()[5] == expected[5]);
        assert(fields.deep_view()[6] == expected[6]);
        assert(fields.deep_view()[8] == expected[8]);
        assert(fields.deep_view()[9] == expected[9]);
        assert(fields.deep_view()[10] == expected[10]);
        assert(fields.deep_view() =~= expected);
        Dialog::new(DialogKind::DependencyAdvanced(name.to_owned()), fields)
    }

    /// The name and dependency a basic dependency dialog stands for: name and source are
    /// required, a blank version means `source`, blank checksum and path mean none; the other
    /// settings come from `baseline`.
    pub fn basic_dependency(&self, baseline: &FormDependency) -> (result: Result<(String, FormDependency), String>)
        requires
            self@.fields.len() >= 6,
        ensures
            ({
                let fields = self@.fields;
                if trimmed(fields[0].1).len() == 0 {
                    result matches Err(message) && message@ == empty_message("依赖名称"@)
                } else if trimmed(fields[1].1).len() == 0 {
                    result matches Err(message) && message@ == empty_message("来源"@)
                } else {
                    result matches Ok((name, dependency)) && name@ == trimmed(fields[0].1)
                        && dependency.source@ == trimmed(fields[1].1) && dependency.version@ == (
                    if trimmed(fields[2].1).len() == 0 {
                        "source"@
                    } else {
                        trimmed(fields[2].1)
                    }) && dependency.checksum.deep_view() == optional_text(fields[3].1)
                        && dependency.kind@ == fields[4].1 && dependency.path.deep_view()
                        == optional_text(fields[5].1) && dependency.mirrors.deep_view()
                        == baseline.mirrors.deep_view() && dependency.unpack@ == baseline.unpack@
                        && dependency.verify.deep_view() == baseline.verify.deep_view()
                        && dependency.download.deep_view() == baseline.download.deep_view()
                        && dependency.ssh.deep_view() == baseline.ssh.deep_view()
                }
            }),
    {
        let name = match required_value(self.fields[0].value.as_str(), "依赖名称") {
            Ok(name) => name,
            Err(message) => return Err(message),
        };
        let source = match required_value(self.fields[1].value.as_str(), "来源") {
            Ok(source) => source,
            Err(message) => return Err(message),
        };
        let version = match optional(self.fields[2].value.as_str()) {
            Some(version) => version,
            None => "source".to_owned(),
        };
        let dependency = FormDependency {
            source,
            mirrors: copy_text_list(&baseline.mirrors),
            version,
            checksum: optional(self.fields[3].value.as_str()),
            unpack: baseline.unpack.clone(),
            path: optional(self.fields[5].value.as_str()),
            kind: self.fields[4].value.clone(),
            verify: copy_verify(&baseline.verify),
            download: copy_download(&baseline.download),
            ssh: copy_ssh(&baseline.ssh),
        };
        Ok((name, dependency))
    }

    /// The dependency an advanced dependency dialog stands for, checking its fields in order:
    /// mirrors, retries, the transfer timeout (`timeout` is what the duration syntax read from
    /// its text), the download limit, headers and verification arguments. Source, version,
    /// checksum, path and kind come from `baseline`.
    #[verifier::rlimit(40)]
    pub fn advanced_dependency(
        &self,
        baseline: &FormDependency,
        timeout: Result<u64, String>,
    ) -> (result: Result<FormDependency, String>)
        requires
            self@.fields.len() >= 11,
        ensures
            ({
                let fields = self@.fields;
                match argument_list(fields[0].1, "镜像"@) {
                    Err(expected) => result matches Err(message) && message@ == expected,
                    Ok(mirrors) => match parse_unsigned(trimmed(fields[2].1), 255) {
                        None => result matches Err(message) && message@ == retries_message(),
                        Some(retries) => match timeout {
                            Err(error) => result matches Err(message) && message@ == timeout_message(error@),
                            Ok(timeout_ms) => match parse_unsigned(trimmed(fields[4].1), u64::MAX as int) {
                                None => result matches Err(message) && message@ == max_bytes_message(),
                                Some(max_bytes) => match table_text_entries(fields[5].1, "HTTP 请求头"@) {
                                    Err(expected) => result matches Err(message) && message@ == expected,
                                    Ok(headers) => match argument_list(fields[9].1, "验证参数"@) {
                                        Err(expected) => result matches Err(message) && message@ == expected,
                                        Ok(arguments) => result matches Ok(dependency)
                                            && dependency.mirrors.deep_view() == mirrors
                                            && dependency.unpack@ == fields[1].1
                                            && dependency.download.deep_view() == (retries as u8, timeout_ms, max_bytes as u64, headers)
                                            && dependency.ssh.deep_view() == (optional_text(fields[6].1), optional_text(fields[7].1))
                                            && dependency.verify.deep_view() == (if optional_text(fields[8].1) is Some
                                                || arguments.len() > 0 || optional_text(fields[10].1) is Some {
                                                Some((optional_text(fields[8].1), arguments, optional_text(fields[10].1)))
                                            } else {
                                                None
                                            })
                                            && dependency.source@ == baseline.source@
                                            && dependency.version@ == baseline.version@
                                            && dependency.checksum.deep_view() == baseline.checksum.deep_view()
                                            && dependency.path.deep_view() == baseline.path.deep_view()
                                            && dependency.kind@ == baseline.kind@,
                                    },
                                },
                            },
                        },
                    },
                }
            }),
    {
        let mirrors = match parse_args(self.fields[0].value.as_str(), "镜像") {
            Ok(mirrors) => mirrors,
            Err(message) => return Err(message),
        };
        let retries_text = trim_chars(chars_of(self.fields[2].value.as_str()).as_slice());
        let retries = match parse_unsigned_text(retries_text.as_slice(), 255) {
            Some(retries) => retries as u8,
            None => return Err("失败重试次数必须是 0 到 255 的整数".to_owned()),
        };
        let timeout_ms = match timeout {
            Ok(value) => value,
            Err(error) => {
                let mut message = "单次总超时无效：".to_owned();
                crate::text::append_text(&mut message, error.as_str());
                return Err(message);
            },
        };
        let bytes_text = trim_chars(chars_of(self.fields[4].value.as_str()).as_slice());
        let max_bytes = match parse_unsigned_text(bytes_text.as_slice(), u64::MAX) {
            Some(max_bytes) => max_bytes,
            None => return Err("最大下载字节必须是非负整数".to_owned()),
        };
        let headers = match parse_map(self.fields[5].value.as_str(), "HTTP 请求头") {
            Ok(headers) => headers,
            Err(message) => return Err(message),
        };
        let identity_file = optional(self.fields[6].value.as_str());
        let known_hosts_file = optional(self.fields[7].value.as_str());
        let command = optional(self.fields[8].value.as_str());
        let args = match parse_args(self.fields[9].value.as_str(), "验证参数") {
            Ok(args) => args,
            Err(message) => return Err(message),
        };
        let contains = optional(self.fields[10].value.as_str());
        let verify = if command.is_some() || args.len() > 0 || contains.is_some() {
            Some(FormVerify { command, args, contains })
        } else {
            None
        };
        Ok(
            FormDependency {
                source: baseline.source.clone(),
                mirrors,
                version: baseline.version.clone(),
                checksum: copy_optional_text(&baseline.checksum),
                unpack: self.fields[1].value.clone(),
                path: copy_optional_text(&baseline.path),
                kind: baseline.kind.clone(),
                verify,
                download: FormDependencyDownload { retries, timeout_ms, max_bytes, headers },
                ssh: FormDependencySsh { identity_file, known_hosts_file },
            },
        )
    }
}

/// Lemma: among distinct texts, each is first found at its own position.
proof fn lemma_distinct_position(keys: Seq<Seq<char>>, index: int, start: int)
    requires
        0 <= start <= index < keys.len(),
        forall|i: int, j: int| 0 <= i < j < keys.len() ==> keys[i] != keys[j],
    ensures
        crate::package_workspace::key_position(keys, keys[index], start) == index,
    decreases index - start,
{
    if start < index {
        lemma_distinct_position(keys, index, start + 1);
    }
}

/// Law: with distinct choices, cycling a choice field one way and back restores its value.
pub proof fn lemma_choice_cycle_round_trip(dialog: DialogView, forward: bool)
    requires
        dialog.valid(),
        crate::package_workspace::key_position(dialog.current().2, dialog.current().1, 0) >= 0,
        forall|i: int, j: int|
            0 <= i < j < dialog.current().2.len() ==> dialog.current().2[i] != dialog.current().2[j],
    ensures
        dialog.choice_cycled(forward).choice_cycled(!forward).current().1 == dialog.current().1,
        dialog.choice_cycled(forward).choice_cycled(!forward).selected == dialog.selected,
{
    let choices = dialog.current().2;
    let count = choices.len() as int;
    crate::package_workspace::lemma_key_position_bounds(choices, dialog.current().1, 0);
    let position = crate::package_workspace::key_position(choices, dialog.current().1, 0);
    let next = wrapped_step(position, forward, count);
    assert(0 <= next < count) by {
        if forward {
            assert(0 <= (position + 1) % count < count) by (nonlinear_arith)
                requires
                    count > 0,
                    0 <= position < count,
            ;
        }
    }
    let cycled = dialog.choice_cycled(forward);
    assert(cycled.current().2 == choices);
    assert(cycled.current().1 == choices[next]);
    lemma_distinct_position(choices, next, 0);
    assert(wrapped_step(next, !forward, count) == position) by {
        if forward {
            if position + 1 < count {
                assert((position + 1) % count == position + 1) by (nonlinear_arith)
                    requires
                        0 <= position + 1 < count,
                ;
            } else {
                assert((position + 1) % count == 0) by (nonlinear_arith)
                    requires
                        position + 1 == count,
                        count > 0,
                ;
            }
        } else if position == 0 {
            assert((count - 1 + 1) % count == 0) by (nonlinear_arith)
                requires
                    count > 0,
            ;
        } else {
            assert((position - 1 + 1) % count == position) by (nonlinear_arith)
                requires
                    0 < position < count,
            ;
        }
    }
    assert(choices[position] == dialog.current().1) by {
        lemma_key_position_found(choices, dialog.current().1, 0);
    }
}

/// Lemma: a found position holds the text looked for.
proof fn lemma_key_position_found(keys: Seq<Seq<char>>, key: Seq<char>, start: int)
    requires
        crate::package_workspace::key_position(keys, key, start) >= 0,
    ensures
        keys[crate::package_workspace::key_position(keys, key, start)] == key,
    decreases keys.len() - start,
{
    if 0 <= start < keys.len() && keys[start] != key {
        lemma_key_position_found(keys, key, start + 1);
    }
}

} // verus!
