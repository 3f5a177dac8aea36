//! Raw text editing of a configuration file: lines, a character cursor, scrolling, and the
//! save and quit protocol around them.

use vstd::prelude::*;

use crate::form_value::{lemma_pieces_nonempty, pieces, split_text};
use crate::input::{Key, KeyPress};
use crate::number::{digits_of, natural_text};
use crate::text::{append_text, chars_of, insert_char_at, joined, remove_char_at, string_of_range};
use crate::text_view::{character_width, widths};

verus! {

/// Text format of a configuration file.
#[derive(Clone, Copy, Debug, PartialEq, Eq, Structural)]
pub enum ConfigFormat {
    Yaml,
    Toml,
    Json,
}

/// The format a file extension names: `yaml` or `yml`, `toml`, `json`.
pub open spec fn format_of_extension(extension: Seq<char>) -> Option<ConfigFormat> {
    if extension == seq!['y', 'a', 'm', 'l'] || extension == seq!['y', 'm', 'l'] {
        Some(ConfigFormat::Yaml)
    } else if extension == seq!['t', 'o', 'm', 'l'] {
        Some(ConfigFormat::Toml)
    } else if extension == seq!['j', 's', 'o', 'n'] {
        Some(ConfigFormat::Json)
    } else {
        None
    }
}

/// Whether a character sequence is exactly the given word.
fn is_word(characters: &Vec<char>, word: &[char]) -> (result: bool)
    ensures
        result == (characters@ == word@),
{
    if characters.len() != word.len() {
        return false;
    }
    let mut index: usize = 0;
    while index < word.len()
        invariant
            characters@.len() == word@.len(),
            index <= word@.len(),
            forall|k: int| 0 <= k < index ==> characters@[k] == word@[k],
        decreases word@.len() - index,
    {
        if characters[index] != word[index] {
            return false;
        }
        index += 1;
    }
    assert(characters@ =~= word@);
    true
}

impl ConfigFormat {
    /// The format of a file with the given extension, if it is one of the supported ones.
    pub fn from_extension(extension: &str) -> (result: Option<ConfigFormat>)
        ensures
            result == format_of_extension(extension@),
    {
        let characters = chars_of(extension);
        let yaml = ['y', 'a', 'm', 'l'];
        let yml = ['y', 'm', 'l'];
        let toml = ['t', 'o', 'm', 'l'];
        let json = ['j', 's', 'o', 'n'];
        assert(yaml@ == seq!['y', 'a', 'm', 'l']);
        assert(yml@ == seq!['y', 'm', 'l']);
        assert(toml@ == seq!['t', 'o', 'm', 'l']);
        assert(json@ == seq!['j', 's', 'o', 'n']);
        if is_word(&characters, &yaml) || is_word(&characters, &yml) {
            Some(ConfigFormat::Yaml)
        } else if is_word(&characters, &toml) {
            Some(ConfigFormat::Toml)
        } else if is_word(&characters, &json) {
            Some(ConfigFormat::Json)
        } else {
            None
        }
    }
}

/// Where the edited text comes from.
#[derive(Clone, Copy, Debug, PartialEq, Eq, Structural)]
pub enum EditorSource {
    /// One complete configuration file.
    Standalone,
    /// The entry of a configuration spread over several files: kept as raw text.
    DefinitionClosure,
}

/// Work a key asks of the caller, beyond the editor's own state.
#[derive(Clone, Copy, Debug, PartialEq, Eq, Structural)]
pub enum EditorRequest {
    /// No further work.
    Nothing,
    /// Validate and write the text.
    Save,
    /// Turn the text into the structured form.
    OpenForm,
}

/// Lines of a text read from a file: split at each line break, a final line break ending the
/// last line rather than opening an empty one.
pub open spec fn lines_of(input: Seq<char>) -> Seq<Seq<char>> {
    if input.len() > 0 && input.last() == '\n' {
        pieces(input.drop_last(), '\n')
    } else {
        pieces(input, '\n')
    }
}

/// The file text of some lines: each line followed by a line break.
pub open spec fn text_of_lines(lines: Seq<Seq<char>>) -> Seq<char> {
    joined(lines, seq!['\n']) + seq!['\n']
}

/// Lemma: joining the pieces of a text at the separator gives the text back.
pub proof fn lemma_joined_pieces(text: Seq<char>, separator: char)
    ensures
        joined(pieces(text, separator), seq![separator]) == text,
    decreases text.len(),
{
    if text.len() > 0 {
        let rest = pieces(text.drop_last(), separator);
        lemma_joined_pieces(text.drop_last(), separator);
        lemma_pieces_nonempty(text.drop_last(), separator);
        let parts = pieces(text, separator);
        if text.last() == separator {
            assert(parts.drop_last() == rest);
            assert(text == text.drop_last() + seq![separator] + Seq::<char>::empty());
        } else if rest.len() == 1 {
            assert(text == rest[0].push(text.last()));
        } else {
            assert(parts.drop_last() =~= rest.drop_last());
            let head = joined(rest.drop_last(), seq![separator]);
            assert(joined(rest, seq![separator]) == head + seq![separator] + rest.last());
            assert(text =~= text.drop_last().push(text.last()));
            assert(text =~= head + seq![separator] + rest.last().push(text.last()));
        }
    }
}

/// Law: the text an editor opened on `input` writes back is `input`, with a final line break
/// added where it had none.
pub proof fn lemma_text_round_trip(input: Seq<char>)
    ensures
        text_of_lines(lines_of(input)) == (if input.len() > 0 && input.last() == '\n' {
            input
        } else {
            input + seq!['\n']
        }),
{
    if input.len() > 0 && input.last() == '\n' {
        lemma_joined_pieces(input.drop_last(), '\n');
        assert(input == input.drop_last() + seq!['\n']);
    } else {
        lemma_joined_pieces(input, '\n');
    }
}

/// Message shown when the editor opens.
pub open spec fn opening_message() -> Seq<char> {
    "编辑后按 Ctrl-S 校验并保存"@
}

/// Message shown after any change of the text.
pub open spec fn unsaved_message() -> Seq<char> {
    "未保存；Ctrl-S 校验并保存"@
}

/// Message asking to confirm that unsaved changes are dropped.
pub open spec fn discard_prompt() -> Seq<char> {
    "有未保存修改；再次按 Esc 或 Ctrl-C 放弃"@
}

/// Message shown when the raw text mode is chosen.
pub open spec fn text_mode_message() -> Seq<char> {
    "已进入高级文本模式；F1 返回表单"@
}

/// Message shown when a configuration spread over several files asks for the form.
pub open spec fn closure_message() -> Seq<char> {
    "多文件配置保持高级文本模式，避免表单展开后丢失输入来源"@
}

/// Message after a successful save.
pub open spec fn saved_message(tasks: nat, dependencies: nat) -> Seq<char> {
    "已保存："@ + digits_of(tasks) + " 个任务，"@ + digits_of(dependencies) + " 个管理依赖"@
}

/// Message after the file could not be written.
pub open spec fn write_failed_message(error: Seq<char>) -> Seq<char> {
    "保存失败："@ + error
}

/// Message after the text was refused as a configuration.
pub open spec fn invalid_message(error: Seq<char>) -> Seq<char> {
    "配置无效："@ + error
}

/// Message after the text could not be turned into the form.
pub open spec fn form_unavailable_message(error: Seq<char>) -> Seq<char> {
    "配置无效，无法打开表单："@ + error + "；请在文本模式修复"@
}

/// Abstract state of the configuration text editor.
pub ghost struct ConfigEditorView {
    pub path: Seq<char>,
    pub format: ConfigFormat,
    pub lines: Seq<Seq<char>>,
    pub row: int,
    pub column: int,
    pub scroll: int,
    pub horizontal_scroll: int,
    pub dirty: bool,
    pub should_quit: bool,
    pub confirm_discard: bool,
    pub message: Seq<char>,
    pub source: EditorSource,
}

impl ConfigEditorView {
    /// There is always a line, the cursor row is one of them and its column lies within it.
    pub open spec fn valid(self) -> bool {
        &&& self.lines.len() > 0
        &&& 0 <= self.row < self.lines.len()
        &&& 0 <= self.column <= self.lines[self.row].len()
        &&& self.scroll >= 0
        &&& self.horizontal_scroll >= 0
    }

    /// The line under the cursor.
    pub open spec fn line(self) -> Seq<char> {
        self.lines[self.row]
    }

    /// The whole text as it would be written.
    pub open spec fn text(self) -> Seq<char> {
        text_of_lines(self.lines)
    }

    /// The state after a change of the text: unsaved, no pending discard, and told so.
    pub open spec fn changed(self) -> ConfigEditorView {
        ConfigEditorView {
            dirty: true,
            confirm_discard: false,
            message: unsaved_message(),
            ..self
        }
    }

    /// The state after a request to quit: unsaved changes first ask for confirmation.
    pub open spec fn quit_requested(self) -> ConfigEditorView {
        if self.dirty && !self.confirm_discard {
            ConfigEditorView { confirm_discard: true, message: discard_prompt(), ..self }
        } else {
            ConfigEditorView { should_quit: true, ..self }
        }
    }

    /// The state after typing a character at the cursor.
    pub open spec fn inserted(self, character: char) -> ConfigEditorView {
        ConfigEditorView {
            lines: self.lines.update(self.row, self.line().insert(self.column, character)),
            column: self.column + 1,
            ..self
        }.changed()
    }

    /// The state after breaking the line at the cursor.
    pub open spec fn split(self) -> ConfigEditorView {
        ConfigEditorView {
            lines: self.lines.update(self.row, self.line().take(self.column)).insert(
                self.row + 1,
                self.line().skip(self.column),
            ),
            row: self.row + 1,
            column: 0,
            ..self
        }.changed()
    }

    /// The state after a backspace: the character before the cursor goes, or at the start of a
    /// line the line joins the one above.
    pub open spec fn backspaced(self) -> ConfigEditorView {
        if self.column > 0 {
            ConfigEditorView {
                lines: self.lines.update(self.row, self.line().remove(self.column - 1)),
                column: self.column - 1,
                ..self
            }.changed()
        } else if self.row > 0 {
            let above = self.lines[self.row - 1];
            ConfigEditorView {
                lines: self.lines.remove(self.row).update(self.row - 1, above + self.line()),
                row: self.row - 1,
                column: above.len() as int,
                ..self
            }.changed()
        } else {
            self
        }
    }

    /// The state after a delete: the character under the cursor goes, or at the end of a line
    /// the next line joins it.
    pub open spec fn deleted(self) -> ConfigEditorView {
        if self.column < self.line().len() {
            ConfigEditorView {
                lines: self.lines.update(self.row, self.line().remove(self.column)),
                ..self
            }.changed()
        } else if self.row + 1 < self.lines.len() {
            ConfigEditorView {
                lines: self.lines.remove(self.row + 1).update(
                    self.row,
                    self.line() + self.lines[self.row + 1],
                ),
                ..self
            }.changed()
        } else {
            self
        }
    }

    /// The cursor one character back, wrapping to the end of the line above.
    pub open spec fn moved_left(self) -> ConfigEditorView {
        if self.column > 0 {
            ConfigEditorView { column: self.column - 1, ..self }
        } else if self.row > 0 {
            ConfigEditorView {
                row: self.row - 1,
                column: self.lines[self.row - 1].len() as int,
                ..self
            }
        } else {
            self
        }
    }

    /// The cursor one character on, wrapping to the start of the line below.
    pub open spec fn moved_right(self) -> ConfigEditorView {
        if self.column < self.line().len() {
            ConfigEditorView { column: self.column + 1, ..self }
        } else if self.row + 1 < self.lines.len() {
            ConfigEditorView { row: self.row + 1, column: 0, ..self }
        } else {
            self
        }
    }

    /// The cursor one line up, its column kept within the line.
    pub open spec fn moved_up(self) -> ConfigEditorView {
        if self.row > 0 {
            let above = self.lines[self.row - 1].len() as int;
            ConfigEditorView {
                row: self.row - 1,
                column: if self.column < above {
                    self.column
                } else {
                    above
                },
                ..self
            }
        } else {
            self
        }
    }

    /// The cursor one line down, its column kept within the line.
    pub open spec fn moved_down(self) -> ConfigEditorView {
        if self.row + 1 < self.lines.len() {
            let below = self.lines[self.row + 1].len() as int;
            ConfigEditorView {
                row: self.row + 1,
                column: if self.column < below {
                    self.column
                } else {
                    below
                },
                ..self
            }
        } else {
            self
        }
    }

    /// The state after a key other than the control, function and escape keys, once a pending
    /// discard has been dropped.
    pub open spec fn edited(self, code: Key) -> ConfigEditorView {
        match code {
            Key::Char(character) => self.inserted(character),
            Key::Enter => self.split(),
            Key::Backspace => self.backspaced(),
            Key::Delete => self.deleted(),
            Key::Left => self.moved_left(),
            Key::Right => self.moved_right(),
            Key::Up => self.moved_up(),
            Key::Down => self.moved_down(),
            Key::Home => ConfigEditorView { column: 0, ..self },
            Key::End => ConfigEditorView { column: self.line().len() as int, ..self },
            Key::Tab => self.inserted(' ').inserted(' '),
            _ => self,
        }
    }

    /// The state after one key.
    pub open spec fn key_applied(self, key: KeyPress) -> ConfigEditorView {
        if key.control {
            if key.code == Key::Char('c') {
                self.quit_requested()
            } else {
                self
            }
        } else if key.code == Key::F(1) {
            if self.source == EditorSource::DefinitionClosure {
                ConfigEditorView { message: closure_message(), ..self }
            } else {
                self
            }
        } else if key.code == Key::F(2) {
            ConfigEditorView { message: text_mode_message(), ..self }
        } else if key.code == Key::Esc {
            self.quit_requested()
        } else {
            ConfigEditorView { confirm_discard: false, ..self }.edited(key.code)
        }
    }

    /// What one key asks of the caller.
    pub open spec fn key_request(self, key: KeyPress) -> EditorRequest {
        if key.control && key.code == Key::Char('s') {
            EditorRequest::Save
        } else if !key.control && key.code == Key::F(1) && self.source
            == EditorSource::Standalone {
            EditorRequest::OpenForm
        } else {
            EditorRequest::Nothing
        }
    }

    /// The state with the first visible line moved so that the cursor row shows among
    /// `height` lines (at least one).
    pub open spec fn scrolled_to_cursor(self, height: int) -> ConfigEditorView {
        let shown = if height < 1 {
            1
        } else {
            height
        };
        if self.row < self.scroll {
            ConfigEditorView { scroll: self.row, ..self }
        } else if self.row >= self.scroll + shown {
            ConfigEditorView { scroll: self.row + 1 - shown, ..self }
        } else {
            self
        }
    }

    /// The state with the first visible column moved so that the cursor shows among `width`
    /// columns (at least one).
    pub open spec fn scrolled_to_column(self, width: int) -> ConfigEditorView {
        let shown = if width < 1 {
            1
        } else {
            width
        };
        let column = self.display_column();
        if column < self.horizontal_scroll {
            ConfigEditorView { horizontal_scroll: column, ..self }
        } else if column >= self.horizontal_scroll + shown {
            ConfigEditorView { horizontal_scroll: column + 1 - shown, ..self }
        } else {
            self
        }
    }

    /// Display column of the cursor, as far as a `usize` reaches.
    pub open spec fn display_column(self) -> int {
        let total = widths(self.line(), 0, self.column);
        if total <= usize::MAX {
            total
        } else {
            usize::MAX as int
        }
    }
}


/// Law: a backspace right after typing a character takes it out again: lines and cursor are as
/// before.
pub proof fn lemma_backspace_undoes_insert(editor: ConfigEditorView, character: char)
    requires
        editor.valid(),
    ensures
        editor.inserted(character).backspaced().lines == editor.lines,
        editor.inserted(character).backspaced().row == editor.row,
        editor.inserted(character).backspaced().column == editor.column,
{
    let line = editor.line();
    assert(line.insert(editor.column, character).remove(editor.column) =~= line);
    assert(editor.lines.update(editor.row, line) =~= editor.lines);
}

/// Law: a backspace at the start of the line a line break just opened joins the two halves
/// again: lines and cursor are as before.
pub proof fn lemma_backspace_undoes_split(editor: ConfigEditorView)
    requires
        editor.valid(),
    ensures
        editor.split().backspaced().lines == editor.lines,
        editor.split().backspaced().row == editor.row,
        editor.split().backspaced().column == editor.column,
{
    let line = editor.line();
    let column = editor.column;
    let split = editor.split();
    assert(split.lines[editor.row] == line.take(column));
    assert(split.lines[editor.row + 1] == line.skip(column));
    assert(line.take(column) + line.skip(column) =~= line);
    assert(split.lines.remove(editor.row + 1) =~= editor.lines.update(editor.row, line.take(column)));
    assert(editor.lines.update(editor.row, line) =~= editor.lines);
}

/// Law: with unsaved changes the first request to quit only asks for confirmation and a
/// second one quits.
pub proof fn lemma_quit_needs_confirmation(editor: ConfigEditorView)
    requires
        editor.dirty,
        !editor.confirm_discard,
    ensures
        !editor.quit_requested().should_quit || editor.should_quit,
        editor.quit_requested().confirm_discard,
        editor.quit_requested().message == discard_prompt(),
        editor.quit_requested().quit_requested().should_quit,
{
}

/// Law: a key other than Escape, Control and the function keys withdraws a pending
/// confirmation to quit.
pub proof fn lemma_editing_cancels_quit(editor: ConfigEditorView, key: KeyPress)
    requires
        editor.valid(),
        !key.control,
        key.code != Key::Esc,
        key.code != Key::F(1),
        key.code != Key::F(2),
    ensures
        !editor.key_applied(key).confirm_discard,
        editor.key_applied(key).should_quit == editor.should_quit,
{
}

/// The written text before line `row`: the lines above it, each followed by a line break.
pub open spec fn text_before(lines: Seq<Seq<char>>, row: int) -> Seq<char> {
    if row == 0 {
        Seq::empty()
    } else {
        joined(lines.take(row), seq!['\n']) + seq!['\n']
    }
}

/// The joined text after line `row`: the lines below it, each preceded by a line break.
pub open spec fn text_after(lines: Seq<Seq<char>>, row: int) -> Seq<char> {
    if row + 1 >= lines.len() {
        Seq::empty()
    } else {
        seq!['\n'] + joined(lines.skip(row + 1), seq!['\n'])
    }
}

/// Lemma: the joined lines are the text before a line, the line, and the text after it.
pub proof fn lemma_joined_around(lines: Seq<Seq<char>>, row: int)
    requires
        0 <= row < lines.len(),
    ensures
        joined(lines, seq!['\n']) == text_before(lines, row) + lines[row] + text_after(lines, row),
    decreases lines.len(),
{
    let separator = seq!['\n'];
    let shorter = lines.drop_last();
    if row == lines.len() - 1 {
        assert(lines.take(row) =~= shorter);
        if lines.len() > 1 {
            assert(joined(lines, separator) == joined(shorter, separator) + separator + lines.last());
        }
        assert(joined(lines, separator) =~= text_before(lines, row) + lines[row] + text_after(
            lines,
            row,
        ));
    } else {
        lemma_joined_around(shorter, row);
        assert(shorter.take(row) =~= lines.take(row));
        assert(text_before(shorter, row) == text_before(lines, row));
        let rest = lines.skip(row + 1);
        if row + 1 < shorter.len() {
            assert(rest.drop_last() =~= shorter.skip(row + 1));
            assert(joined(rest, separator) == joined(rest.drop_last(), separator) + separator
                + rest.last());
        } else {
            assert(rest =~= seq![lines.last()]);
        }
        assert(joined(lines, separator) == joined(shorter, separator) + separator + lines.last());
        assert(joined(lines, separator) =~= text_before(lines, row) + lines[row] + text_after(
            lines,
            row,
        ));
    }
}

impl ConfigEditorView {
    /// Position of the cursor in the written text.
    pub open spec fn cursor_offset(self) -> int {
        text_before(self.lines, self.row).len() + self.column
    }
}

/// Law: typing a character puts it into the written text at the cursor position, and
/// changes nothing else of it.
pub proof fn lemma_insert_lands_at_cursor(editor: ConfigEditorView, character: char)
    requires
        editor.valid(),
    ensures
        editor.inserted(character).text() == editor.text().insert(
            editor.cursor_offset(),
            character,
        ),
{
    let lines = editor.lines;
    let row = editor.row;
    let updated = editor.inserted(character).lines;
    lemma_joined_around(lines, row);
    lemma_joined_around(updated, row);
    assert(updated.take(row) =~= lines.take(row));
    assert(updated.skip(row + 1) =~= lines.skip(row + 1));
    let before = text_before(lines, row);
    let after = text_after(lines, row);
    assert(text_before(updated, row) == before);
    assert(text_after(updated, row) == after);
    assert((before + lines[row] + after + seq!['\n']).insert(
        before.len() + editor.column,
        character,
    ) =~= before + lines[row].insert(editor.column, character) + after + seq!['\n']);
}

/// Text editor of one configuration file.
#[derive(Clone, Debug)]
pub struct ConfigEditor {
    path: String,
    format: ConfigFormat,
    lines: Vec<String>,
    row: usize,
    column: usize,
    scroll: usize,
    horizontal_scroll: usize,
    dirty: bool,
    should_quit: bool,
    confirm_discard: bool,
    message: String,
    source: EditorSource,
}

impl View for ConfigEditor {
    type V = ConfigEditorView;

    closed spec fn view(&self) -> ConfigEditorView {
        ConfigEditorView {
            path: self.path@,
            format: self.format,
            lines: self.lines.deep_view(),
            row: self.row as int,
            column: self.column as int,
            scroll: self.scroll as int,
            horizontal_scroll: self.horizontal_scroll as int,
            dirty: self.dirty,
            should_quit: self.should_quit,
            confirm_discard: self.confirm_discard,
            message: self.message@,
            source: self.source,
        }
    }
}

impl ConfigEditor {
    /// Number of characters of a line.
    fn line_length(&self, index: usize) -> (result: usize)
        requires
            index < self@.lines.len(),
        ensures
            result == self@.lines[index as int].len(),
    {
        chars_of(self.lines[index].as_str()).len()
    }

    /// Replaces one line.
    fn set_line(&mut self, index: usize, text: String)
        requires
            index < old(self)@.lines.len(),
        ensures
            final(self)@ == (ConfigEditorView {
                lines: old(self)@.lines.update(index as int, text@),
                ..old(self)@
            }),
    {
        self.lines.set(index, text);
        assert(self.lines.deep_view() =~= old(self)@.lines.update(index as int, text@));
    }

    /// Marks the text as changed.
    fn changed(&mut self)
        ensures
            final(self)@ == old(self)@.changed(),
    {
        self.dirty = true;
        self.confirm_discard = false;
        self.message = "未保存；Ctrl-S 校验并保存".to_owned();
    }

    /// Asks to quit, confirming first when changes are unsaved.
    fn request_quit(&mut self)
        ensures
            final(self)@ == old(self)@.quit_requested(),
    {
        if self.dirty && !self.confirm_discard {
            self.confirm_discard = true;
            self.message = "有未保存修改；再次按 Esc 或 Ctrl-C 放弃".to_owned();
        } else {
            self.should_quit = true;
        }
    }

    /// Types a character at the cursor.
    fn insert(&mut self, character: char)
        requires
            old(self)@.valid(),
        ensures
            final(self)@ == old(self)@.inserted(character),
            final(self)@.valid(),
    {
        let line = insert_char_at(self.lines[self.row].as_str(), self.column, character);
        let count = chars_of(line.as_str()).len();
        self.set_line(self.row, line);
        self.column = self.column + 1;
        self.changed();
    }

    /// Breaks the line at the cursor.
    fn split(&mut self)
        requires
            old(self)@.valid(),
        ensures
            final(self)@ == old(self)@.split(),
            final(self)@.valid(),
    {
        let characters = chars_of(self.lines[self.row].as_str());
        let left = string_of_range(characters.as_slice(), 0, self.column);
        let right = string_of_range(characters.as_slice(), self.column, characters.len());
        assert(left@ =~= old(self)@.line().take(self.column as int));
        assert(right@ =~= old(self)@.line().skip(self.column as int));
        self.set_line(self.row, left);
        let ghost updated = self.lines.deep_view();
        let count = self.lines.len();
        self.lines.insert(self.row + 1, right);
        assert(self.lines.deep_view() =~= updated.insert(self.row + 1, right@));
        self.row = self.row + 1;
        self.column = 0;
        self.changed();
    }

    /// Removes the character before the cursor, or joins the line to the one above.
    fn backspace(&mut self)
        requires
            old(self)@.valid(),
        ensures
            final(self)@ == old(self)@.backspaced(),
            final(self)@.valid(),
    {
        if self.column > 0 {
            let line = remove_char_at(self.lines[self.row].as_str(), self.column - 1);
            self.set_line(self.row, line);
            self.column = self.column - 1;
            self.changed();
        } else if self.row > 0 {
            let ghost before = self.lines.deep_view();
            let current = self.lines.remove(self.row);
            assert(self.lines.deep_view() =~= before.remove(old(self).row as int));
            self.row = self.row - 1;
            let above = self.line_length(self.row);
            let mut merged = self.lines[self.row].clone();
            append_text(&mut merged, current.as_str());
            self.set_line(self.row, merged);
            self.column = above;
            self.changed();
        }
    }

    /// Removes the character under the cursor, or joins the next line to this one.
    fn delete(&mut self)
        requires
            old(self)@.valid(),
        ensures
            final(self)@ == old(self)@.deleted(),
            final(self)@.valid(),
    {
        let length = self.line_length(self.row);
        if self.column < length {
            let line = remove_char_at(self.lines[self.row].as_str(), self.column);
            self.set_line(self.row, line);
            self.changed();
        } else if self.row < self.lines.len() - 1 {
            let ghost before = self.lines.deep_view();
            let next = self.lines.remove(self.row + 1);
            assert(self.lines.deep_view() =~= before.remove(old(self).row + 1));
            let mut merged = self.lines[self.row].clone();
            append_text(&mut merged, next.as_str());
            self.set_line(self.row, merged);
            self.changed();
        }
    }

    /// Handles one key and says what it asks of the caller.
    pub fn handle_key(&mut self, key: KeyPress) -> (request: EditorRequest)
        requires
            old(self)@.valid(),
        ensures
            final(self)@ == old(self)@.key_applied(key),
            final(self)@.valid(),
            request == old(self)@.key_request(key),
    {
        if key.control {
            if key.code == Key::Char('s') {
                return EditorRequest::Save;
            }
            if key.code == Key::Char('c') {
                self.request_quit();
            }
            return EditorRequest::Nothing;
        }
        if key.code == Key::F(1) {
            if self.source == EditorSource::DefinitionClosure {
                self.message = "多文件配置保持高级文本模式，避免表单展开后丢失输入来源".to_owned();
                return EditorRequest::Nothing;
            }
            return EditorRequest::OpenForm;
        }
        if key.code == Key::F(2) {
            self.message = "已进入高级文本模式；F1 返回表单".to_owned();
            return EditorRequest::Nothing;
        }
        if key.code == Key::Esc {
            self.request_quit();
            return EditorRequest::Nothing;
        }
        self.confirm_discard = false;
        match key.code {
            Key::Char(character) => self.insert(character),
            Key::Enter => self.split(),
            Key::Backspace => self.backspace(),
            Key::Delete => self.delete(),
            Key::Left => {
                if self.column > 0 {
                    self.column = self.column - 1;
                } else if self.row > 0 {
                    self.row = self.row - 1;
                    self.column = self.line_length(self.row);
                }
            },
            Key::Right => {
                let length = self.line_length(self.row);
                if self.column < length {
                    self.column = self.column + 1;
                } else if self.row < self.lines.len() - 1 {
                    self.row = self.row + 1;
                    self.column = 0;
                }
            },
            Key::Up => {
                if self.row > 0 {
                    self.row = self.row - 1;
                    let length = self.line_length(self.row);
                    if self.column > length {
                        self.column = length;
                    }
                }
            },
            Key::Down => {
                if self.row < self.lines.len() - 1 {
                    self.row = self.row + 1;
                    let length = self.line_length(self.row);
                    if self.column > length {
                        self.column = length;
                    }
                }
            },
            Key::Home => {
                self.column = 0;
            },
            Key::End => {
                self.column = self.line_length(self.row);
            },
            Key::Tab => {
                self.insert(' ');
                self.insert(' ');
            },
            _ => {},
        }
        EditorRequest::Nothing
    }

    /// Moves the first visible line so that the cursor row shows among `height` lines.
    pub fn ensure_visible(&mut self, height: usize)
        requires
            old(self)@.valid(),
        ensures
            final(self)@ == old(self)@.scrolled_to_cursor(height as int),
            final(self)@.valid(),
    {
        let shown = if height < 1 {
            1
        } else {
            height
        };
        if self.row < self.scroll {
            self.scroll = self.row;
        } else if self.row - self.scroll >= shown {
            self.scroll = self.row - shown + 1;
        }
    }

    /// Display column of the cursor.
    fn cursor_display_column(&self) -> (result: usize)
        requires
            self@.valid(),
        ensures
            result == self@.display_column(),
    {
        let characters = chars_of(self.lines[self.row].as_str());
        let mut total: usize = 0;
        let mut index: usize = 0;
        while index < self.column
            invariant
                self@.valid(),
                characters@ == self@.line(),
                index <= self.column,
                total == (if widths(characters@, 0, index as int) <= usize::MAX {
                    widths(characters@, 0, index as int)
                } else {
                    usize::MAX as int
                }),
                widths(characters@, 0, index as int) >= 0,
            decreases self.column - index,
        {
            let step = character_width(characters[index]);
            total = total.saturating_add(step);
            index += 1;
        }
        total
    }

    /// Moves the first visible column so that the cursor shows among `width` columns.
    pub fn ensure_horizontal_visible(&mut self, width: usize)
        requires
            old(self)@.valid(),
        ensures
            final(self)@ == old(self)@.scrolled_to_column(width as int),
            final(self)@.valid(),
    {
        let shown = if width < 1 {
            1
        } else {
            width
        };
        let column = self.cursor_display_column();
        if column < self.horizontal_scroll {
            self.horizontal_scroll = column;
        } else if column - self.horizontal_scroll >= shown {
            self.horizontal_scroll = column - shown + 1;
        }
    }

    /// Cursor row and column.
    pub fn cursor(&self) -> (result: (usize, usize))
        ensures
            result.0 == self@.row && result.1 == self@.column,
    {
        (self.row, self.column)
    }

    /// First visible line.
    pub fn scroll(&self) -> (result: usize)
        ensures
            result == self@.scroll,
    {
        self.scroll
    }

    /// First visible display column.
    pub fn horizontal_scroll(&self) -> (result: usize)
        ensures
            result == self@.horizontal_scroll,
    {
        self.horizontal_scroll
    }

    /// The status message.
    pub fn message(&self) -> (result: &str)
        ensures
            result@ == self@.message,
    {
        self.message.as_str()
    }

    /// Path of the edited file.
    pub fn path(&self) -> (result: &str)
        ensures
            result@ == self@.path,
    {
        self.path.as_str()
    }

    /// Format of the edited file.
    pub fn format(&self) -> (result: ConfigFormat)
        ensures
            result == self@.format,
    {
        self.format
    }

    /// Whether the editor asked to be closed.
    pub fn should_quit(&self) -> (result: bool)
        ensures
            result == self@.should_quit,
    {
        self.should_quit
    }

    /// Whether there are unsaved changes.
    pub fn is_dirty(&self) -> (result: bool)
        ensures
            result == self@.dirty,
    {
        self.dirty
    }

    /// The lines, in order.
    pub fn lines(&self) -> (result: Vec<String>)
        ensures
            result.deep_view() == self@.lines,
    {
        let mut result: Vec<String> = Vec::new();
        let mut index: usize = 0;
        while index < self.lines.len()
            invariant
                index <= self.lines@.len(),
                result.deep_view() == self.lines.deep_view().take(index as int),
            decreases self.lines@.len() - index,
        {
            let item = self.lines[index].clone();
            let ghost before = result.deep_view();
            result.push(item);
            assert(result.deep_view() =~= before.push(item@));
            index += 1;
            assert(result.deep_view() =~= self.lines.deep_view().take(index as int));
        }
        assert(self.lines.deep_view().take(self.lines@.len() as int) =~= self.lines.deep_view());
        result
    }

    /// Records that the text is the entry of a configuration spread over `documents` files;
    /// more than one keeps it in raw text editing.
    pub fn set_definition_documents(&mut self, documents: usize)
        ensures
            final(self)@ == (ConfigEditorView {
                source: if documents > 1 {
                    EditorSource::DefinitionClosure
                } else {
                    old(self)@.source
                },
                ..old(self)@
            }),
    {
        if documents > 1 {
            self.source = EditorSource::DefinitionClosure;
        }
    }

    /// Records a successful save of a configuration with the given numbers of tasks and
    /// managed dependencies.
    pub fn mark_saved(&mut self, tasks: usize, dependencies: usize)
        ensures
            final(self)@ == (ConfigEditorView {
                dirty: false,
                message: saved_message(tasks as nat, dependencies as nat),
                ..old(self)@
            }),
    {
        let mut message = "已保存：".to_owned();
        let tasks_text = natural_text(tasks as u64);
        append_text(&mut message, tasks_text.as_str());
        append_text(&mut message, " 个任务，");
        let dependencies_text = natural_text(dependencies as u64);
        append_text(&mut message, dependencies_text.as_str());
        append_text(&mut message, " 个管理依赖");
        self.dirty = false;
        self.message = message;
    }

    /// Records that writing the file failed.
    pub fn report_write_error(&mut self, error: &str)
        ensures
            final(self)@ == (ConfigEditorView { message: write_failed_message(error@), ..old(self)@ }),
    {
        let mut message = "保存失败：".to_owned();
        append_text(&mut message, error);
        self.message = message;
    }

    /// Records that the text is not a valid configuration.
    pub fn report_invalid(&mut self, error: &str)
        ensures
            final(self)@ == (ConfigEditorView { message: invalid_message(error@), ..old(self)@ }),
    {
        let mut message = "配置无效：".to_owned();
        append_text(&mut message, error);
        self.message = message;
    }

    /// Records that the text could not be turned into the form; editing stays on the text.
    pub fn report_form_unavailable(&mut self, error: &str)
        ensures
            final(self)@ == (ConfigEditorView {
                message: form_unavailable_message(error@),
                ..old(self)@
            }),
    {
        let mut message = "配置无效，无法打开表单：".to_owned();
        append_text(&mut message, error);
        append_text(&mut message, "；请在文本模式修复");
        self.message = message;
    }

    /// The whole text as it would be written: every line followed by a line break.
    pub fn text(&self) -> (result: String)
        ensures
            result@ == self@.text(),
    {
        let mut result = String::new();
        let mut index: usize = 0;
        while index < self.lines.len()
            invariant
                index <= self.lines@.len(),
                result@ == joined(self.lines.deep_view().take(index as int), seq!['\n']),
            decreases self.lines@.len() - index,
        {
            let ghost lines = self.lines.deep_view();
            let ghost before = result@;
            if index > 0 {
                crate::text::push_char(&mut result, '\n');
            }
            append_text(&mut result, self.lines[index].as_str());
            index += 1;
            assert(lines.take(index as int).drop_last() =~= lines.take(index - 1));
            if index == 1 {
                assert(result@ =~= lines.take(1)[0]);
            } else {
                assert(result@ =~= before + seq!['\n'] + lines.take(index as int).last());
            }
        }
        assert(self.lines.deep_view().take(self.lines@.len() as int) =~= self.lines.deep_view());
        crate::text::push_char(&mut result, '\n');
        assert(result@ =~= self@.text());
        result
    }

    /// An editor over the given text of the file at `path`, cursor and scrolling at the start.
    pub fn from_text(path: String, format: ConfigFormat, input: &str) -> (result: ConfigEditor)
        ensures
            result@.valid(),
            result@.path == path@,
            result@.format == format,
            result@.lines == lines_of(input@),
            result@.row == 0 && result@.column == 0,
            result@.scroll == 0 && result@.horizontal_scroll == 0,
            !result@.dirty && !result@.should_quit && !result@.confirm_discard,
            result@.message == opening_message(),
            result@.source == EditorSource::Standalone,
    {
        let characters = chars_of(input);
        let count = characters.len();
        let mut lines = split_text(input, '\n');
        proof {
            lemma_pieces_nonempty(input@, '\n');
        }
        if count > 0 && characters[count - 1] == '\n' {
            proof {
                let body = input@.drop_last();
                assert(input@ == body.push('\n'));
                assert(body.push('\n').drop_last() == body);
                lemma_pieces_nonempty(body, '\n');
            }
            lines.pop();
            assert(lines.deep_view() =~= pieces(input@, '\n').drop_last());
        }
        if lines.len() == 0 {
            lines.push(String::new());
        }
        assert(lines.deep_view() =~= lines_of(input@));
        ConfigEditor {
            path,
            format,
            lines,
            row: 0,
            column: 0,
            scroll: 0,
            horizontal_scroll: 0,
            dirty: false,
            should_quit: false,
            confirm_discard: false,
            message: "编辑后按 Ctrl-S 校验并保存".to_owned(),
            source: EditorSource::Standalone,
        }
    }
}

/// Law: without Control, Up moves the cursor to the line above at the same column, or the end
/// of that line when it is shorter, and Down likewise to the line below; on the first or last
/// line they leave it where it is. The text never changes.
pub proof fn lemma_vertical_moves(view: ConfigEditorView)
    requires
        view.valid(),
    ensures
        ({
            let up = view.key_applied(KeyPress { code: Key::Up, control: false });
            let down = view.key_applied(KeyPress { code: Key::Down, control: false });
            &&& up.lines == view.lines && down.lines == view.lines
            &&& view.row > 0 ==> up.row == view.row - 1 && up.column == (if view.column
                <= view.lines[view.row - 1].len() {
                view.column
            } else {
                view.lines[view.row - 1].len() as int
            })
            &&& view.row == 0 ==> up.row == 0 && up.column == view.column
            &&& view.row + 1 < view.lines.len() ==> down.row == view.row + 1 && down.column == (if view.column
                <= view.lines[view.row + 1].len() {
                view.column
            } else {
                view.lines[view.row + 1].len() as int
            })
            &&& view.row + 1 == view.lines.len() ==> down.row == view.row && down.column == view.column
        }),
{
}

/// Law: without Control, Left moves the cursor one character back or to the end of the line
/// above, and Right one character on or to the start of the line below; at the very start and
/// end they leave it where it is. The text never changes.
pub proof fn lemma_horizontal_moves(view: ConfigEditorView)
    requires
        view.valid(),
    ensures
        ({
            let left = view.key_applied(KeyPress { code: Key::Left, control: false });
            let right = view.key_applied(KeyPress { code: Key::Right, control: false });
            &&& left.lines == view.lines && right.lines == view.lines
            &&& view.column > 0 ==> left.row == view.row && left.column == view.column - 1
            &&& view.column == 0 && view.row > 0 ==> left.row == view.row - 1 && left.column
                == view.lines[view.row - 1].len()
            &&& view.column < view.lines[view.row].len() ==> right.row == view.row && right.column
                == view.column + 1
            &&& view.column == view.lines[view.row].len() && view.row + 1 < view.lines.len() ==> right.row
                == view.row + 1 && right.column == 0
        }),
{
}

/// Law: without Control, a character key puts the character at the cursor and the cursor
/// after it; Enter breaks the line at the cursor and moves to the start of the new line;
/// Backspace inside a line removes the character before the cursor; Home and End go to the
/// start and end of the line. Each change of the text marks it unsaved.
pub proof fn lemma_editing_keys(view: ConfigEditorView, character: char)
    requires
        view.valid(),
    ensures
        ({
            let typed = view.key_applied(KeyPress { code: Key::Char(character), control: false });
            let enter = view.key_applied(KeyPress { code: Key::Enter, control: false });
            let back = view.key_applied(KeyPress { code: Key::Backspace, control: false });
            let home = view.key_applied(KeyPress { code: Key::Home, control: false });
            let end = view.key_applied(KeyPress { code: Key::End, control: false });
            &&& typed.text() == view.text().insert(view.cursor_offset(), character)
            &&& typed.row == view.row && typed.column == view.column + 1 && typed.dirty
            &&& enter.lines.len() == view.lines.len() + 1
            &&& enter.lines[view.row] + enter.lines[view.row + 1] == view.lines[view.row]
            &&& enter.lines[view.row].len() == view.column
            &&& enter.row == view.row + 1 && enter.column == 0 && enter.dirty
            &&& view.column > 0 ==> back.lines[view.row] == view.lines[view.row].remove(view.column - 1)
                && back.row == view.row && back.column == view.column - 1 && back.dirty
            &&& home.lines == view.lines && home.row == view.row && home.column == 0
            &&& end.lines == view.lines && end.row == view.row && end.column == view.lines[view.row].len()
        }),
{
    let reset = ConfigEditorView { confirm_discard: false, ..view };
    lemma_insert_lands_at_cursor(reset, character);
    assert(reset.text() == view.text());
    assert(reset.cursor_offset() == view.cursor_offset());
    let line = view.lines[view.row];
    assert(line.take(view.column) + line.skip(view.column) =~= line);
}

} // verus!
