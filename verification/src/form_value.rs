//! Text conversions and common checks of structured form fields.

use vstd::prelude::*;

use crate::number::parse_unsigned;
use crate::number::{parse_signed, parse_signed_text, parse_unsigned_text};
use crate::json::{json_array_read, json_integers_read, json_object_read, read_json_array, read_json_integers, read_json_object};
use crate::map_editor::{has_key, key_slot, RowModel};
use crate::overview_collection::{text_order, text_rank};
use crate::text::{
    append_text, chars_of, is_white_space, joined, same_text, string_of, trim_chars, trim_end, trim_start,
    trimmed, white_space,
};

verus! {

/// The text without leading and trailing white space.
pub fn trim_text(text: &str) -> (result: String)
    ensures
        result@ == trimmed(text@),
{
    string_of(trim_chars(chars_of(text).as_slice()).as_slice())
}

/// A text followed by a fixed suffix.
fn labelled(label: &str, suffix: &str) -> (result: String)
    ensures
        result@ == label@ + suffix@,
{
    let mut message = label.to_owned();
    append_text(&mut message, suffix);
    message
}

/// Message for an empty required field.
pub open spec fn empty_message(label: Seq<char>) -> Seq<char> {
    label + " 不能为空"@
}

/// Accepts a field whose text is not blank.
pub fn require(value: &str, label: &str) -> (result: Result<(), String>)
    ensures
        match result {
            Ok(()) => trimmed(value@).len() > 0,
            Err(message) => trimmed(value@).len() == 0 && message@ == empty_message(label@),
        },
{
    let trimmed_value = trim_text(value);
    if trimmed_value.as_str().is_empty() {
        Err(labelled(label, " 不能为空"))
    } else {
        Ok(())
    }
}

/// Reads a required field without its surrounding white space.
pub fn required_value(value: &str, label: &str) -> (result: Result<String, String>)
    ensures
        match result {
            Ok(text) => trimmed(value@).len() > 0 && text@ == trimmed(value@),
            Err(message) => trimmed(value@).len() == 0 && message@ == empty_message(label@),
        },
{
    match require(value, label) {
        Err(message) => Err(message),
        Ok(()) => Ok(trim_text(value)),
    }
}

/// An optional field: nothing when blank, else the text without surrounding white space.
pub fn optional(value: &str) -> (result: Option<String>)
    ensures
        match result {
            Some(text) => trimmed(value@).len() > 0 && text@ == trimmed(value@),
            None => trimmed(value@).len() == 0,
        },
{
    let trimmed_value = trim_text(value);
    if trimmed_value.as_str().is_empty() {
        None
    } else {
        Some(trimmed_value)
    }
}

/// Message for a field that is not a non-negative 32-bit integer.
pub open spec fn unsigned_message(label: Seq<char>) -> Seq<char> {
    label + " 必须是非负整数"@
}

/// Message for a field that is not a port number.
pub open spec fn port_message(label: Seq<char>) -> Seq<char> {
    label + " 必须是 0–65535 的整数"@
}

/// Parses a non-negative 32-bit integer, surrounding white space allowed.
pub fn parse_u32(value: &str, label: &str) -> (result: Result<u32, String>)
    ensures
        match parse_unsigned(trimmed(value@), u32::MAX as int) {
            Some(number) => result == Ok::<u32, String>(number as u32),
            None => result matches Err(message) && message@ == unsigned_message(label@),
        },
{
    let trimmed_value = trim_chars(chars_of(value).as_slice());
    match parse_unsigned_text(trimmed_value.as_slice(), u32::MAX as u64) {
        Some(number) => Ok(number as u32),
        None => Err(labelled(label, " 必须是非负整数")),
    }
}

/// Parses a 16-bit port number, surrounding white space allowed.
pub fn parse_u16(value: &str, label: &str) -> (result: Result<u16, String>)
    ensures
        match parse_unsigned(trimmed(value@), u16::MAX as int) {
            Some(number) => result == Ok::<u16, String>(number as u16),
            None => result matches Err(message) && message@ == port_message(label@),
        },
{
    let trimmed_value = trim_chars(chars_of(value).as_slice());
    match parse_unsigned_text(trimmed_value.as_slice(), u16::MAX as u64) {
        Some(number) => Ok(number as u16),
        None => Err(labelled(label, " 必须是 0–65535 的整数")),
    }
}

/// Lemma: trimming a trimmed text changes nothing.
pub proof fn lemma_trimmed_idempotent(text: Seq<char>)
    ensures
        trimmed(trimmed(text)) == trimmed(text),
{
    crate::text::lemma_trim_idempotent(text);
}

/// Parses an optional 16-bit port number: nothing when blank.
pub fn parse_optional_u16(value: &str, label: &str) -> (result: Result<Option<u16>, String>)
    ensures
        trimmed(value@).len() == 0 ==> result == Ok::<Option<u16>, String>(None),
        trimmed(value@).len() > 0 ==> match parse_unsigned(trimmed(value@), u16::MAX as int) {
            Some(number) => result == Ok::<Option<u16>, String>(Some(number as u16)),
            None => result matches Err(message) && message@ == port_message(label@),
        },
{
    match optional(value) {
        None => Ok(None),
        Some(text) => {
            proof {
                lemma_trimmed_idempotent(value@);
            }
            match parse_u16(text.as_str(), label) {
                Ok(number) => Ok(Some(number)),
                Err(message) => Err(message),
            }
        },
    }
}

/// Parses an optional non-negative 32-bit integer: nothing when blank.
pub fn parse_optional_u32(value: &str, label: &str) -> (result: Result<Option<u32>, String>)
    ensures
        trimmed(value@).len() == 0 ==> result == Ok::<Option<u32>, String>(None),
        trimmed(value@).len() > 0 ==> match parse_unsigned(trimmed(value@), u32::MAX as int) {
            Some(number) => result == Ok::<Option<u32>, String>(Some(number as u32)),
            None => result matches Err(message) && message@ == unsigned_message(label@),
        },
{
    match optional(value) {
        None => Ok(None),
        Some(text) => {
            proof {
                lemma_trimmed_idempotent(value@);
            }
            match parse_u32(text.as_str(), label) {
                Ok(number) => Ok(Some(number)),
                Err(message) => Err(message),
            }
        },
    }
}

/// Whether a character may occur in a stable name: an ASCII letter or digit, `.`, `-` or `_`.
pub open spec fn name_character(character: char) -> bool {
    ||| 'a' <= character <= 'z'
    ||| 'A' <= character <= 'Z'
    ||| '0' <= character <= '9'
    ||| character == '.'
    ||| character == '-'
    ||| character == '_'
}

/// Whether a name follows the configuration's rule for stable identifiers: not empty, and
/// made of ASCII letters, digits, `.`, `-` and `_` only.
pub fn valid_name(name: &str) -> (result: bool)
    ensures
        result == (name@.len() > 0 && forall|index: int|
            0 <= index < name@.len() ==> name_character(#[trigger] name@[index])),
{
    let characters = chars_of(name);
    if characters.len() == 0 {
        return false;
    }
    let mut index: usize = 0;
    while index < characters.len()
        invariant
            characters@ == name@,
            index <= characters@.len(),
            forall|k: int| 0 <= k < index ==> name_character(#[trigger] characters@[k]),
        decreases characters@.len() - index,
    {
        let character = characters[index];
        let allowed = ('a' <= character && character <= 'z') || ('A' <= character && character
            <= 'Z') || ('0' <= character && character <= '9') || character == '.' || character
            == '-' || character == '_';
        if !allowed {
            return false;
        }
        index += 1;
    }
    true
}

/// The pieces of a text between separators, as `str::split` gives them.
pub open spec fn pieces(text: Seq<char>, separator: char) -> Seq<Seq<char>>
    decreases text.len(),
{
    if text.len() == 0 {
        seq![Seq::empty()]
    } else {
        let rest = pieces(text.drop_last(), separator);
        if text.last() == separator {
            rest.push(Seq::empty())
        } else {
            rest.update(rest.len() - 1, rest.last().push(text.last()))
        }
    }
}

/// Lemma: a text always splits into at least one piece.
pub proof fn lemma_pieces_nonempty(text: Seq<char>, separator: char)
    ensures
        pieces(text, separator).len() > 0,
    decreases text.len(),
{
    if text.len() > 0 {
        lemma_pieces_nonempty(text.drop_last(), separator);
    }
}

/// The pieces of a text between separators.
pub fn split_text(text: &str, separator: char) -> (result: Vec<String>)
    ensures
        result.deep_view() == pieces(text@, separator),
{
    let characters = chars_of(text);
    let mut done: Vec<String> = Vec::new();
    let mut current = String::new();
    let mut index: usize = 0;
    assert(characters@.take(0) == Seq::<char>::empty());
    assert(done.deep_view().push(current@) =~= pieces(Seq::<char>::empty(), separator));
    while index < characters.len()
        invariant
            characters@ == text@,
            index <= characters@.len(),
            done.deep_view().push(current@) == pieces(characters@.take(index as int), separator),
        decreases characters@.len() - index,
    {
        let character = characters[index];
        let ghost before = done.deep_view().push(current@);
        assert(characters@.take(index + 1).drop_last() == characters@.take(index as int));
        assert(characters@.take(index + 1).last() == character);
        if character == separator {
            done.push(current);
            current = String::new();
            assert(done.deep_view().push(current@) =~= before.push(Seq::<char>::empty()));
        } else {
            crate::text::push_char(&mut current, character);
            assert(done.deep_view().push(current@) =~= before.update(
                before.len() - 1,
                before.last().push(character),
            ));
        }
        index += 1;
    }
    assert(characters@.take(characters@.len() as int) == characters@);
    done.push(current);
    done
}

/// Position of the first `character` in a text; -1 when it does not occur.
pub open spec fn first_position(text: Seq<char>, character: char, start: int) -> int
    decreases text.len() - start,
{
    if start < 0 || start >= text.len() {
        -1
    } else if text[start] == character {
        start
    } else {
        first_position(text, character, start + 1)
    }
}

/// Lemma: a found position lies within the text and holds the character.
pub proof fn lemma_first_position(text: Seq<char>, character: char, start: int)
    requires
        0 <= start,
    ensures
        first_position(text, character, start) == -1 || (start <= first_position(text, character, start)
            < text.len() && text[first_position(text, character, start)] == character),
    decreases text.len() - start,
{
    if start < text.len() && text[start] != character {
        lemma_first_position(text, character, start + 1);
    }
}

/// The text split at the first `separator`: before it and after it; nothing when absent.
pub open spec fn split_once(text: Seq<char>, separator: char) -> Option<(Seq<char>, Seq<char>)> {
    let position = first_position(text, separator, 0);
    if position < 0 {
        None
    } else {
        Some((text.take(position), text.skip(position + 1)))
    }
}

/// The text split at the first `separator`.
pub fn split_once_text(text: &str, separator: char) -> (result: Option<(String, String)>)
    ensures
        match split_once(text@, separator) {
            Some((before, after)) => result matches Some((left, right)) && left@ == before && right@
                == after,
            None => result is None,
        },
{
    let characters = chars_of(text);
    let mut index: usize = 0;
    while index < characters.len()
        invariant
            characters@ == text@,
            index <= characters@.len(),
            first_position(text@, separator, index as int) == first_position(text@, separator, 0),
        decreases characters@.len() - index,
    {
        if characters[index] == separator {
            let before = crate::text::string_of_range(characters.as_slice(), 0, index);
            let after = crate::text::string_of_range(characters.as_slice(), index + 1, characters.len());
            assert(characters@.subrange(0, index as int) == text@.take(index as int));
            assert(characters@.subrange(index + 1, characters@.len() as int) == text@.skip(
                index + 1,
            ));
            return Some((before, after));
        }
        index += 1;
    }
    None
}

/// A task's wait condition on one of its dependencies.
#[derive(Clone, Debug)]
pub struct FormTaskDependency {
    /// `started`, `healthy` or `completed_successfully`.
    pub condition: String,
}

/// The condition a spelling stands for; nothing when it names none.
pub open spec fn condition_spelling(text: Seq<char>) -> Option<Seq<char>> {
    if text == "started"@ || text == "process_started"@ {
        Some("started"@)
    } else if text == "healthy"@ || text == "process_healthy"@ {
        Some("healthy"@)
    } else if text == "completed_successfully"@ || text == "process_completed_successfully"@ {
        Some("completed_successfully"@)
    } else {
        None
    }
}

/// Message for an unknown dependency condition.
pub open spec fn condition_message() -> Seq<char> {
    "依赖条件只能是 started、healthy 或 completed_successfully"@
}

/// Message for a dependency named twice.
pub open spec fn repeated_dependency_message(name: Seq<char>) -> Seq<char> {
    "依赖 Task `"@ + name + "` 重复出现"@
}

/// The dependencies a comma-separated list names, ordered by task name: blank items are
/// skipped, `name:condition` sets the condition and a bare name waits until it started; the
/// first blank name, unknown condition or repeated name makes it an error.
pub open spec fn dependency_entries(items: Seq<Seq<char>>) -> Result<Seq<RowModel>, Seq<char>>
    decreases items.len(),
{
    if items.len() == 0 {
        Ok(Seq::empty())
    } else {
        match dependency_entries(items.drop_last()) {
            Err(message) => Err(message),
            Ok(entries) => {
                let item = items.last();
                if trimmed(item).len() == 0 {
                    Ok(entries)
                } else {
                    let (raw_name, raw_condition) = match split_once(item, ':') {
                        Some(parts) => parts,
                        None => (item, "started"@),
                    };
                    let name = trimmed(raw_name);
                    if name.len() == 0 {
                        Err(empty_message("依赖 Task"@))
                    } else {
                        match condition_spelling(trimmed(raw_condition)) {
                            None => Err(condition_message()),
                            Some(condition) => if has_key(entries, name) {
                                Err(repeated_dependency_message(name))
                            } else {
                                Ok(
                                    entries.insert(
                                        key_slot(entries, name, entries.len() as int),
                                        (name, condition),
                                    ),
                                )
                            },
                        }
                    }
                }
            },
        }
    }
}

/// Lemma: a problem found in the first items is the problem of the whole list.
proof fn lemma_dependency_error_stays(items: Seq<Seq<char>>, count: int)
    requires
        0 <= count <= items.len(),
        dependency_entries(items.take(count)) is Err,
    ensures
        dependency_entries(items) == dependency_entries(items.take(count)),
    decreases items.len() - count,
{
    if count < items.len() {
        assert(items.take(count + 1).drop_last() == items.take(count));
        lemma_dependency_error_stays(items, count + 1);
    } else {
        assert(items.take(count) == items);
    }
}

/// The condition a spelling stands for.
fn condition_of(text: &str) -> (result: Option<&'static str>)
    ensures
        match condition_spelling(text@) {
            Some(condition) => result matches Some(found) && found@ == condition,
            None => result is None,
        },
{
    let text = text.to_owned();
    let started = "started".to_owned();
    let process_started = "process_started".to_owned();
    let healthy = "healthy".to_owned();
    let process_healthy = "process_healthy".to_owned();
    let completed = "completed_successfully".to_owned();
    let process_completed = "process_completed_successfully".to_owned();
    if same_text(&text, &started) || same_text(&text, &process_started) {
        Some("started")
    } else if same_text(&text, &healthy) || same_text(&text, &process_healthy) {
        Some("healthy")
    } else if same_text(&text, &completed) || same_text(&text, &process_completed) {
        Some("completed_successfully")
    } else {
        None
    }
}

/// Parses a comma-separated list of task dependencies into entries ordered by task name.
pub fn parse_dependencies(value: &str) -> (result: Result<Vec<(String, FormTaskDependency)>, String>)
    ensures
        match (result, dependency_entries(pieces(value@, ','))) {
            (Ok(entries), Ok(expected)) => entries@.map_values(
                |entry: (String, FormTaskDependency)| (entry.0@, entry.1.condition@),
            ) == expected,
            (Err(message), Err(expected)) => message@ == expected,
            _ => false,
        },
{
    let items = split_text(value, ',');
    let ghost all = items.deep_view();
    let mut entries: Vec<(String, FormTaskDependency)> = Vec::new();
    let mut index: usize = 0;
    assert(all.take(0) == Seq::<Seq<char>>::empty());
    assert(entries@.map_values(|entry: (String, FormTaskDependency)| (entry.0@, entry.1.condition@))
        =~= Seq::<RowModel>::empty());
    while index < items.len()
        invariant
            all == items.deep_view(),
            all == pieces(value@, ','),
            index <= all.len(),
            dependency_entries(all.take(index as int)) == Ok::<Seq<RowModel>, Seq<char>>(
                entries@.map_values(
                    |entry: (String, FormTaskDependency)| (entry.0@, entry.1.condition@),
                ),
            ),
        decreases all.len() - index,
    {
        let ghost model = entries@.map_values(
            |entry: (String, FormTaskDependency)| (entry.0@, entry.1.condition@),
        );
        assert(all.take(index + 1).drop_last() == all.take(index as int));
        assert(all.take(index + 1).last() == items@[index as int]@);
        let item = &items[index];
        if trim_text(item.as_str()).as_str().is_empty() {
            index += 1;
            continue;
        }
        let (raw_name, raw_condition) = match split_once_text(item.as_str(), ':') {
            Some(parts) => parts,
            None => (item.clone(), "started".to_owned()),
        };
        let name = trim_text(raw_name.as_str());
        if name.as_str().is_empty() {
            proof {
                lemma_dependency_error_stays(all, index + 1);
            }
            return Err(labelled("依赖 Task", " 不能为空"));
        }
        let condition = match condition_of(trim_text(raw_condition.as_str()).as_str()) {
            Some(condition) => condition,
            None => {
                proof {
                    lemma_dependency_error_stays(all, index + 1);
                }
                return Err("依赖条件只能是 started、healthy 或 completed_successfully".to_owned());
            },
        };
        let mut duplicate = false;
        let mut scan: usize = 0;
        while scan < entries.len()
            invariant
                scan <= entries@.len(),
                model == entries@.map_values(
                    |entry: (String, FormTaskDependency)| (entry.0@, entry.1.condition@),
                ),
                !duplicate ==> forall|k: int| 0 <= k < scan ==> model[k].0 != name@,
                duplicate ==> has_key(model, name@),
            decreases entries@.len() - scan,
        {
            if same_text(&entries[scan].0, &name) {
                assert(model[scan as int].0 == name@);
                duplicate = true;
            }
            scan += 1;
        }
        if duplicate {
            let mut message = "依赖 Task `".to_owned();
            append_text(&mut message, name.as_str());
            append_text(&mut message, "` 重复出现");
            proof {
                lemma_dependency_error_stays(all, index + 1);
            }
            return Err(message);
        }
        let mut slot = entries.len();
        while slot > 0 && text_rank(
            chars_of(entries[slot - 1].0.as_str()).as_slice(),
            chars_of(name.as_str()).as_slice(),
        ) > 0
            invariant
                slot <= entries@.len(),
                model == entries@.map_values(
                    |entry: (String, FormTaskDependency)| (entry.0@, entry.1.condition@),
                ),
                key_slot(model, name@, model.len() as int) == key_slot(model, name@, slot as int),
            decreases slot,
        {
            slot -= 1;
        }
        let ghost name_model = name@;
        entries.insert(slot, (name, FormTaskDependency { condition: condition.to_owned() }));
        assert(entries@.map_values(
            |entry: (String, FormTaskDependency)| (entry.0@, entry.1.condition@),
        ) =~= model.insert(slot as int, (name_model, condition@)));
        index += 1;
    }
    assert(all.take(all.len() as int) == all);
    Ok(entries)
}

/// Dependencies written back as `name:condition` items separated by commas.
pub fn dependencies_text(values: &[(String, FormTaskDependency)]) -> (result: String)
    ensures
        result@ == joined(
            values@.map_values(
                |entry: (String, FormTaskDependency)| entry.0@ + ":"@ + entry.1.condition@,
            ),
            ","@,
        ),
{
    let ghost parts = values@.map_values(
        |entry: (String, FormTaskDependency)| entry.0@ + ":"@ + entry.1.condition@,
    );
    let mut result = String::new();
    let mut index: usize = 0;
    while index < values.len()
        invariant
            index <= values@.len(),
            parts == values@.map_values(
                |entry: (String, FormTaskDependency)| entry.0@ + ":"@ + entry.1.condition@,
            ),
            result@ == joined(parts.take(index as int), ","@),
        decreases values@.len() - index,
    {
        assert(parts.take(index + 1).drop_last() == parts.take(index as int));
        if index > 0 {
            append_text(&mut result, ",");
        }
        append_text(&mut result, values[index].0.as_str());
        append_text(&mut result, ":");
        append_text(&mut result, values[index].1.condition.as_str());
        index += 1;
    }
    assert(parts.take(values@.len() as int) == parts);
    result
}

/// Message for a table item without `=`.
pub open spec fn pair_message(label: Seq<char>) -> Seq<char> {
    label + " 必须使用 KEY=VALUE 格式"@
}

/// Message for JSON that cannot be read.
pub open spec fn json_message(label: Seq<char>, error: Seq<char>) -> Seq<char> {
    label + " JSON 无效："@ + error
}

/// Entries with `key` set to `value`: replaced where the key exists, else inserted in order.
pub open spec fn put_entry(entries: Seq<RowModel>, key: Seq<char>, value: Seq<char>) -> Seq<RowModel> {
    let found = crate::package_workspace::key_position(
        entries.map_values(|entry: RowModel| entry.0),
        key,
        0,
    );
    if found >= 0 {
        entries.update(found, (key, value))
    } else {
        entries.insert(key_slot(entries, key, entries.len() as int), (key, value))
    }
}

/// The entries a comma-separated `KEY=VALUE` list names, ordered by key: blank items are
/// skipped, keys and values trimmed, a later value for a key replaces the earlier one; the first
/// item without `=` or with a blank key makes it an error.
pub open spec fn pair_entries(items: Seq<Seq<char>>, label: Seq<char>) -> Result<Seq<RowModel>, Seq<char>>
    decreases items.len(),
{
    if items.len() == 0 {
        Ok(Seq::empty())
    } else {
        match pair_entries(items.drop_last(), label) {
            Err(message) => Err(message),
            Ok(entries) => {
                let item = items.last();
                if trimmed(item).len() == 0 {
                    Ok(entries)
                } else {
                    match split_once(item, '=') {
                        None => Err(pair_message(label)),
                        Some((raw_key, raw_value)) => {
                            let key = trimmed(raw_key);
                            if key.len() == 0 {
                                Err(empty_message(label))
                            } else {
                                Ok(put_entry(entries, key, trimmed(raw_value)))
                            }
                        },
                    }
                }
            },
        }
    }
}

/// Lemma: a problem found in the first items is the problem of the whole list.
proof fn lemma_pair_error_stays(items: Seq<Seq<char>>, label: Seq<char>, count: int)
    requires
        0 <= count <= items.len(),
        pair_entries(items.take(count), label) is Err,
    ensures
        pair_entries(items, label) == pair_entries(items.take(count), label),
    decreases items.len() - count,
{
    if count < items.len() {
        assert(items.take(count + 1).drop_last() == items.take(count));
        lemma_pair_error_stays(items, label, count + 1);
    } else {
        assert(items.take(count) == items);
    }
}

/// The entries a table field's text stands for: a JSON object when it starts with `{`, else a
/// comma-separated `KEY=VALUE` list.
pub open spec fn table_text_entries(value: Seq<char>, label: Seq<char>) -> Result<Seq<RowModel>, Seq<char>> {
    let text = trimmed(value);
    if text.len() > 0 && text[0] == '{' {
        match json_object_read(text) {
            Ok(entries) => Ok(entries),
            Err(error) => Err(json_message(label, error)),
        }
    } else {
        pair_entries(pieces(text, ','), label)
    }
}

/// A label followed by a fixed text and a message.
fn labelled_with(label: &str, middle: &str, error: &str) -> (result: String)
    ensures
        result@ == label@ + middle@ + error@,
{
    let mut message = label.to_owned();
    append_text(&mut message, middle);
    append_text(&mut message, error);
    message
}

/// Parses a table field: a JSON object, or `KEY=VALUE` items separated by commas.
pub fn parse_map(value: &str, label: &str) -> (result: Result<Vec<(String, String)>, String>)
    ensures
        match (result, table_text_entries(value@, label@)) {
            (Ok(entries), Ok(expected)) => entries@.map_values(
                |entry: (String, String)| (entry.0@, entry.1@),
            ) == expected,
            (Err(message), Err(expected)) => message@ == expected,
            _ => false,
        },
{
    let text = trim_text(value);
    let characters = chars_of(text.as_str());
    if characters.len() > 0 && characters[0] == '{' {
        return match read_json_object(text.as_str()) {
            Ok(entries) => Ok(entries),
            Err(error) => Err(labelled_with(label, " JSON 无效：", error.as_str())),
        };
    }
    let items = split_text(text.as_str(), ',');
    let ghost all = items.deep_view();
    assert(table_text_entries(value@, label@) == pair_entries(all, label@));
    let mut entries: Vec<(String, String)> = Vec::new();
    let mut index: usize = 0;
    assert(all.take(0) == Seq::<Seq<char>>::empty());
    assert(entries@.map_values(|entry: (String, String)| (entry.0@, entry.1@)) =~= Seq::<RowModel>::empty());
    while index < items.len()
        invariant
            all == items.deep_view(),
            all == pieces(text@, ','),
            table_text_entries(value@, label@) == pair_entries(all, label@),
            index <= all.len(),
            pair_entries(all.take(index as int), label@) == Ok::<Seq<RowModel>, Seq<char>>(
                entries@.map_values(|entry: (String, String)| (entry.0@, entry.1@)),
            ),
        decreases all.len() - index,
    {
        let ghost model = entries@.map_values(|entry: (String, String)| (entry.0@, entry.1@));
        assert(all.take(index + 1).drop_last() == all.take(index as int));
        assert(all.take(index + 1).last() == items@[index as int]@);
        let item = &items[index];
        if trim_text(item.as_str()).as_str().is_empty() {
            index += 1;
            continue;
        }
        let (raw_key, raw_value) = match split_once_text(item.as_str(), '=') {
            Some(parts) => parts,
            None => {
                proof {
                    lemma_pair_error_stays(all, label@, index + 1);
                }
                return Err(labelled(label, " 必须使用 KEY=VALUE 格式"));
            },
        };
        let key = trim_text(raw_key.as_str());
        if key.as_str().is_empty() {
            proof {
                lemma_pair_error_stays(all, label@, index + 1);
            }
            return Err(labelled(label, " 不能为空"));
        }
        let entry_value = trim_text(raw_value.as_str());
        let ghost keys = model.map_values(|entry: RowModel| entry.0);
        let mut found: Option<usize> = None;
        let mut scan: usize = 0;
        while scan < entries.len()
            invariant_except_break
                found is None,
            invariant
                scan <= entries@.len(),
                model == entries@.map_values(|entry: (String, String)| (entry.0@, entry.1@)),
                keys == model.map_values(|entry: RowModel| entry.0),
                crate::package_workspace::key_position(keys, key@, scan as int)
                    == crate::package_workspace::key_position(keys, key@, 0),
            ensures
                match found {
                    Some(position) => position == crate::package_workspace::key_position(keys, key@, 0),
                    None => crate::package_workspace::key_position(keys, key@, 0) == -1,
                },
            decreases entries@.len() - scan,
        {
            if same_text(&entries[scan].0, &key) {
                found = Some(scan);
                break;
            }
            scan += 1;
        }
        proof {
            crate::package_workspace::lemma_key_position_bounds(keys, key@, 0);
        }
        match found {
            Some(position) => {
                let ghost key_model = key@;
                let ghost value_model = entry_value@;
                entries.set(position, (key, entry_value));
                assert(entries@.map_values(|entry: (String, String)| (entry.0@, entry.1@)) =~= model.update(
                    position as int,
                    (key_model, value_model),
                ));
            },
            None => {
                let mut slot = entries.len();
                while slot > 0 && text_rank(
                    chars_of(entries[slot - 1].0.as_str()).as_slice(),
                    chars_of(key.as_str()).as_slice(),
                ) > 0
                    invariant
                        slot <= entries@.len(),
                        model == entries@.map_values(|entry: (String, String)| (entry.0@, entry.1@)),
                        key_slot(model, key@, model.len() as int) == key_slot(model, key@, slot as int),
                    decreases slot,
                {
                    slot -= 1;
                }
                let ghost key_model = key@;
                let ghost value_model = entry_value@;
                entries.insert(slot, (key, entry_value));
                assert(entries@.map_values(|entry: (String, String)| (entry.0@, entry.1@)) =~= model.insert(
                    slot as int,
                    (key_model, value_model),
                ));
            },
        }
        index += 1;
    }
    assert(all.take(all.len() as int) == all);
    Ok(entries)
}

/// The words of a text separated by runs of white space, as `str::split_whitespace` gives them.
pub open spec fn words(text: Seq<char>) -> Seq<Seq<char>>
    decreases text.len(),
{
    if text.len() == 0 {
        Seq::empty()
    } else {
        let rest = words(text.drop_last());
        let character = text.last();
        if white_space(character) {
            rest
        } else if text.len() > 1 && !white_space(text[text.len() - 2]) {
            rest.update(rest.len() - 1, rest.last().push(character))
        } else {
            rest.push(seq![character])
        }
    }
}

/// The words of a text separated by runs of white space.
pub fn split_words(text: &str) -> (result: Vec<String>)
    ensures
        result.deep_view() == words(text@),
{
    let characters = chars_of(text);
    let mut done: Vec<String> = Vec::new();
    let mut current = String::new();
    let mut in_word = false;
    let mut index: usize = 0;
    assert(characters@.take(0) == Seq::<char>::empty());
    assert(done.deep_view() =~= words(Seq::<char>::empty()));
    while index < characters.len()
        invariant
            characters@ == text@,
            index <= characters@.len(),
            in_word == (index > 0 && !white_space(characters@[index - 1])),
            (if in_word {
                done.deep_view().push(current@)
            } else {
                done.deep_view()
            }) == words(characters@.take(index as int)),
        decreases characters@.len() - index,
    {
        let character = characters[index];
        let ghost prefix = characters@.take(index + 1);
        assert(prefix.drop_last() == characters@.take(index as int));
        assert(prefix.last() == character);
        if index > 0 {
            assert(prefix[prefix.len() - 2] == characters@[index - 1]);
        }
        if is_white_space(character) {
            if in_word {
                done.push(current);
                current = String::new();
                in_word = false;
            }
        } else if in_word {
            let ghost before = done.deep_view().push(current@);
            crate::text::push_char(&mut current, character);
            assert(done.deep_view().push(current@) =~= before.update(
                before.len() - 1,
                before.last().push(character),
            ));
        } else {
            current = String::new();
            crate::text::push_char(&mut current, character);
            in_word = true;
            assert(current@ =~= seq![character]);
        }
        index += 1;
    }
    assert(characters@.take(characters@.len() as int) == characters@);
    if in_word {
        done.push(current);
    }
    done
}

/// The argument list a field's text stands for: a JSON array when it starts with `[`, else its
/// words.
pub open spec fn argument_list(value: Seq<char>, label: Seq<char>) -> Result<Seq<Seq<char>>, Seq<char>> {
    let text = trimmed(value);
    if text.len() > 0 && text[0] == '[' {
        match json_array_read(text) {
            Ok(items) => Ok(items),
            Err(error) => Err(json_message(label, error)),
        }
    } else {
        Ok(words(text))
    }
}

/// Parses an argument field: an exact JSON array, or words separated by white space.
pub fn parse_args(value: &str, label: &str) -> (result: Result<Vec<String>, String>)
    ensures
        match (result, argument_list(value@, label@)) {
            (Ok(items), Ok(expected)) => items.deep_view() == expected,
            (Err(message), Err(expected)) => message@ == expected,
            _ => false,
        },
{
    let text = trim_text(value);
    let characters = chars_of(text.as_str());
    if characters.len() > 0 && characters[0] == '[' {
        return match read_json_array(text.as_str()) {
            Ok(items) => Ok(items),
            Err(error) => Err(labelled_with(label, " JSON 无效：", error.as_str())),
        };
    }
    Ok(split_words(text.as_str()))
}

/// The pieces of a text between commas or spaces, as `str::split([',', ' '])` gives them.
pub open spec fn list_pieces(text: Seq<char>) -> Seq<Seq<char>>
    decreases text.len(),
{
    if text.len() == 0 {
        seq![Seq::empty()]
    } else {
        let rest = list_pieces(text.drop_last());
        if text.last() == ',' || text.last() == ' ' {
            rest.push(Seq::empty())
        } else {
            rest.update(rest.len() - 1, rest.last().push(text.last()))
        }
    }
}

/// The pieces of a text between commas or spaces.
fn split_list(text: &str) -> (result: Vec<String>)
    ensures
        result.deep_view() == list_pieces(text@),
{
    let characters = chars_of(text);
    let mut done: Vec<String> = Vec::new();
    let mut current = String::new();
    let mut index: usize = 0;
    assert(characters@.take(0) == Seq::<char>::empty());
    assert(done.deep_view().push(current@) =~= list_pieces(Seq::<char>::empty()));
    while index < characters.len()
        invariant
            characters@ == text@,
            index <= characters@.len(),
            done.deep_view().push(current@) == list_pieces(characters@.take(index as int)),
        decreases characters@.len() - index,
    {
        let character = characters[index];
        let ghost before = done.deep_view().push(current@);
        assert(characters@.take(index + 1).drop_last() == characters@.take(index as int));
        assert(characters@.take(index + 1).last() == character);
        if character == ',' || character == ' ' {
            done.push(current);
            current = String::new();
            assert(done.deep_view().push(current@) =~= before.push(Seq::<char>::empty()));
        } else {
            crate::text::push_char(&mut current, character);
            assert(done.deep_view().push(current@) =~= before.update(
                before.len() - 1,
                before.last().push(character),
            ));
        }
        index += 1;
    }
    assert(characters@.take(characters@.len() as int) == characters@);
    done.push(current);
    done
}

/// Message for an item that is not an integer.
pub open spec fn integers_message(label: Seq<char>) -> Seq<char> {
    label + " 必须是整数数组"@
}

/// Message for a negative number in a list that forbids them.
pub open spec fn negative_message(label: Seq<char>) -> Seq<char> {
    label + "不能包含负数"@
}

/// The integers of list items: blank items skipped, others read trimmed; the first item that is
/// no 32-bit integer makes it an error.
pub open spec fn integer_items(items: Seq<Seq<char>>, label: Seq<char>) -> Result<Seq<i32>, Seq<char>>
    decreases items.len(),
{
    if items.len() == 0 {
        Ok(Seq::empty())
    } else {
        match integer_items(items.drop_last(), label) {
            Err(message) => Err(message),
            Ok(values) => {
                let item = items.last();
                if trimmed(item).len() == 0 {
                    Ok(values)
                } else {
                    match parse_signed(trimmed(item)) {
                        Some(value) => Ok(values.push(value as i32)),
                        None => Err(integers_message(label)),
                    }
                }
            },
        }
    }
}

/// Lemma: a problem found in the first items is the problem of the whole list.
proof fn lemma_integer_error_stays(items: Seq<Seq<char>>, label: Seq<char>, count: int)
    requires
        0 <= count <= items.len(),
        integer_items(items.take(count), label) is Err,
    ensures
        integer_items(items, label) == integer_items(items.take(count), label),
    decreases items.len() - count,
{
    if count < items.len() {
        assert(items.take(count + 1).drop_last() == items.take(count));
        lemma_integer_error_stays(items, label, count + 1);
    } else {
        assert(items.take(count) == items);
    }
}

/// The integers a field's text holds before the sign check: a JSON array when it starts with
/// `[`, else integers separated by commas or spaces.
pub open spec fn integers_read(value: Seq<char>, label: Seq<char>) -> Result<Seq<i32>, Seq<char>> {
    let text = trimmed(value);
    if text.len() > 0 && text[0] == '[' {
        match json_integers_read(text) {
            Ok(values) => Ok(values),
            Err(error) => Err(json_message(label, error)),
        }
    } else {
        integer_items(list_pieces(text), label)
    }
}

/// The integer list a field's text stands for: a JSON array when it starts with `[`, else
/// integers separated by commas or spaces; negative numbers are refused.
pub open spec fn integer_list(value: Seq<char>, label: Seq<char>) -> Result<Seq<i32>, Seq<char>> {
    match integers_read(value, label) {
        Err(message) => Err(message),
        Ok(values) => if exists|index: int| 0 <= index < values.len() && #[trigger] values[index] < 0 {
            Err(negative_message(label))
        } else {
            Ok(values)
        },
    }
}

/// The integers of list items.
fn read_integer_items(items: &Vec<String>, label: &str) -> (result: Result<Vec<i32>, String>)
    ensures
        match (result, integer_items(items.deep_view(), label@)) {
            (Ok(values), Ok(expected)) => values@ == expected,
            (Err(message), Err(expected)) => message@ == expected,
            _ => false,
        },
{
    let ghost all = items.deep_view();
    let mut values: Vec<i32> = Vec::new();
    let mut index: usize = 0;
    assert(all.take(0) == Seq::<Seq<char>>::empty());
    while index < items.len()
        invariant
            all == items.deep_view(),
            index <= all.len(),
            integer_items(all.take(index as int), label@) == Ok::<Seq<i32>, Seq<char>>(values@),
        decreases all.len() - index,
    {
        assert(all.take(index + 1).drop_last() == all.take(index as int));
        assert(all.take(index + 1).last() == items@[index as int]@);
        let item = trim_chars(chars_of(items[index].as_str()).as_slice());
        if item.len() > 0 {
            match parse_signed_text(item.as_slice()) {
                Some(value) => values.push(value),
                None => {
                    proof {
                        lemma_integer_error_stays(all, label@, index + 1);
                    }
                    return Err(labelled(label, " 必须是整数数组"));
                },
            }
        }
        index += 1;
    }
    assert(all.take(all.len() as int) == all);
    Ok(values)
}

/// Parses a list of non-negative integers: an exact JSON array, or items separated by commas or
/// spaces.
pub fn parse_i32_list(value: &str, label: &str) -> (result: Result<Vec<i32>, String>)
    ensures
        match (result, integer_list(value@, label@)) {
            (Ok(values), Ok(expected)) => values@ == expected,
            (Err(message), Err(expected)) => message@ == expected,
            _ => false,
        },
{
    let text = trim_text(value);
    let characters = chars_of(text.as_str());
    let values = if characters.len() > 0 && characters[0] == '[' {
        match read_json_integers(text.as_str()) {
            Ok(values) => values,
            Err(error) => return Err(labelled_with(label, " JSON 无效：", error.as_str())),
        }
    } else {
        match read_integer_items(&split_list(text.as_str()), label) {
            Ok(values) => values,
            Err(message) => return Err(message),
        }
    };
    assert(integers_read(value@, label@) == Ok::<Seq<i32>, Seq<char>>(values@));
    let mut index: usize = 0;
    while index < values.len()
        invariant
            index <= values@.len(),
            integers_read(value@, label@) == Ok::<Seq<i32>, Seq<char>>(values@),
            forall|k: int| 0 <= k < index ==> values@[k] >= 0,
        decreases values@.len() - index,
    {
        if values[index] < 0 {
            return Err(labelled(label, "不能包含负数"));
        }
        index += 1;
    }
    Ok(values)
}

/// Lemma: text with no separator at its end extends the last piece.
proof fn lemma_pieces_extend(text: Seq<char>, tail: Seq<char>, separator: char)
    requires
        !tail.contains(separator),
    ensures
        pieces(text + tail, separator) == pieces(text, separator).update(
            pieces(text, separator).len() - 1,
            pieces(text, separator).last() + tail,
        ),
    decreases tail.len(),
{
    lemma_pieces_nonempty(text, separator);
    let base = pieces(text, separator);
    if tail.len() == 0 {
        assert(text + tail =~= text);
        assert(base.last() + tail =~= base.last());
        assert(base.update(base.len() - 1, base.last()) =~= base);
    } else {
        let shorter = tail.drop_last();
        assert forall|index: int| 0 <= index < shorter.len() implies shorter[index] != separator by {
            assert(tail[index] == shorter[index]);
        }
        lemma_pieces_extend(text, shorter, separator);
        assert((text + tail).drop_last() =~= text + shorter);
        assert((text + tail).last() == tail.last());
        assert(tail[tail.len() - 1] == tail.last());
        assert((base.last() + shorter).push(tail.last()) =~= base.last() + tail);
        assert(base.update(base.len() - 1, base.last() + shorter).update(
            base.len() - 1,
            base.last() + tail,
        ) =~= base.update(base.len() - 1, base.last() + tail));
    }
}

/// Lemma: pieces that hold no separator, joined by it, split back into themselves.
proof fn lemma_pieces_joined(parts: Seq<Seq<char>>, separator: char)
    requires
        parts.len() > 0,
        forall|index: int| 0 <= index < parts.len() ==> !(#[trigger] parts[index]).contains(separator),
    ensures
        pieces(joined(parts, seq![separator]), separator) == parts,
    decreases parts.len(),
{
    if parts.len() == 1 {
        lemma_pieces_extend(Seq::empty(), parts[0], separator);
        assert(Seq::<char>::empty() + parts[0] =~= parts[0]);
        assert(pieces(Seq::<char>::empty(), separator) =~= seq![Seq::<char>::empty()]);
        assert(seq![Seq::<char>::empty()].update(0, Seq::<char>::empty() + parts[0]) =~= parts);
    } else {
        let front = parts.drop_last();
        lemma_pieces_joined(front, separator);
        let head = joined(front, seq![separator]) + seq![separator];
        assert(head.drop_last() =~= joined(front, seq![separator]));
        assert(pieces(head, separator) == front.push(Seq::<char>::empty()));
        assert(parts.last() == parts[parts.len() - 1]);
        lemma_pieces_extend(head, parts.last(), separator);
        assert(Seq::<char>::empty() + parts.last() =~= parts.last());
        assert(front.push(Seq::<char>::empty()).update(front.len() as int, parts.last()) =~= parts);
    }
}

/// Lemma: a non-empty text that neither starts nor ends with white space is its own trim.
proof fn lemma_trimmed_plain(text: Seq<char>)
    requires
        text.len() > 0,
        !white_space(text[0]),
        !white_space(text.last()),
    ensures
        trimmed(text) == text,
{
    assert(trim_start(text) == text);
}

/// Lemma: a trimmed non-empty text neither starts nor ends with white space.
proof fn lemma_trimmed_ends(text: Seq<char>)
    requires
        text.len() > 0,
        trimmed(text) == text,
    ensures
        !white_space(text[0]),
        !white_space(text.last()),
{
    let start = trim_start(text);
    crate::text::lemma_trim_end_prefix(start);
    crate::text::lemma_trim_start_shape(text);
    let kept = trim_end(start);
    assert(kept == text);
    assert(kept == start.take(kept.len() as int));
    assert(kept[0] == start[0]);
}

/// Lemma: a condition spelled as itself is one of the three names, a plain word.
proof fn lemma_condition_plain(condition: Seq<char>)
    requires
        condition_spelling(condition) == Some(condition),
    ensures
        condition.len() > 0,
        trimmed(condition) == condition,
        !condition.contains(','),
{
    reveal_strlit("started");
    reveal_strlit("healthy");
    reveal_strlit("completed_successfully");
    reveal_strlit("process_started");
    reveal_strlit("process_healthy");
    reveal_strlit("process_completed_successfully");
    assert(!white_space(condition[0]));
    assert(!white_space(condition.last()));
    lemma_trimmed_plain(condition);
}

/// Lemma: in `name:rest`, with no colon in the name, the first colon follows the name.
proof fn lemma_colon_after_name(name: Seq<char>, rest: Seq<char>, start: int)
    requires
        0 <= start <= name.len(),
        !name.contains(':'),
    ensures
        first_position(name + ":"@ + rest, ':', start) == name.len(),
    decreases name.len() - start,
{
    reveal_strlit(":");
    let item = name + ":"@ + rest;
    if start < name.len() {
        assert(item[start] == name[start]);
        lemma_colon_after_name(name, rest, start + 1);
    } else {
        assert(item[start] == ':');
    }
}

/// The items a dependency list is written as: `name:condition` for each entry.
pub open spec fn dependency_items(entries: Seq<RowModel>) -> Seq<Seq<char>> {
    entries.map_values(|entry: RowModel| entry.0 + ":"@ + entry.1)
}

/// Whether dependencies can be written as a list: every name non-empty, trimmed and free of
/// commas and colons, the names strictly ordered, and every condition one of the three.
pub open spec fn writable_dependencies(entries: Seq<RowModel>) -> bool {
    &&& forall|index: int|
        0 <= index < entries.len() ==> {
            let name = (#[trigger] entries[index]).0;
            &&& name.len() > 0
            &&& trimmed(name) == name
            &&& !name.contains(',')
            &&& !name.contains(':')
            &&& condition_spelling(entries[index].1) == Some(entries[index].1)
        }
    &&& forall|left: int, right: int|
        0 <= left < right < entries.len() ==> text_order(
            (#[trigger] entries[left]).0,
            (#[trigger] entries[right]).0,
        ) < 0
}

/// Lemma: each written item reads back as its entry.
proof fn lemma_dependency_entries_items(entries: Seq<RowModel>)
    requires
        writable_dependencies(entries),
    ensures
        dependency_entries(dependency_items(entries)) == Ok::<Seq<RowModel>, Seq<char>>(entries),
    decreases entries.len(),
{
    if entries.len() > 0 {
        let front = entries.drop_last();
        assert(writable_dependencies(front)) by {
            assert forall|left: int, right: int| 0 <= left < right < front.len() implies text_order(
                (#[trigger] front[left]).0,
                (#[trigger] front[right]).0,
            ) < 0 by {
                assert(front[left] == entries[left] && front[right] == entries[right]);
            }
            assert forall|index: int| 0 <= index < front.len() implies #[trigger] front[index]
                == entries[index] by {}
        }
        lemma_dependency_entries_items(front);
        let items = dependency_items(entries);
        assert(items.drop_last() =~= dependency_items(front));
        let last = entries[entries.len() - 1];
        assert(entries.last() == last);
        let (name, condition) = last;
        let item = name + ":"@ + condition;
        assert(items.last() == item);
        reveal_strlit(":");
        lemma_condition_plain(condition);
        lemma_trimmed_ends(condition);
        lemma_trimmed_ends(name);
        assert(item[0] == name[0]);
        assert(item.last() == condition.last());
        lemma_trimmed_plain(item);
        lemma_colon_after_name(name, condition, 0);
        assert(item.take(name.len() as int) =~= name);
        assert(item.skip(name.len() + 1int) =~= condition);
        assert(split_once(item, ':') == Some((name, condition)));
        assert(!has_key(front, name)) by {
            if has_key(front, name) {
                let index = choose|index: int| 0 <= index < front.len() && #[trigger] front[index].0 == name;
                assert(front[index] == entries[index]);
                crate::overview_collection::lemma_text_order_antisymmetric(name, name);
                assert(text_order(entries[index].0, entries[entries.len() - 1].0) < 0);
            }
        }
        if front.len() > 0 {
            assert(front[front.len() - 1] == entries[entries.len() - 2]);
            assert(text_order(entries[entries.len() - 2].0, entries[entries.len() - 1].0) < 0);
        }
        assert(key_slot(front, name, front.len() as int) == front.len());
        assert(front.insert(front.len() as int, (name, condition)) =~= entries);
        assert(trimmed(item).len() != 0);
        assert(trimmed(name) == name);
        assert(trimmed(condition) == condition);
        assert(condition_spelling(condition) == Some(condition));
        assert(dependency_entries(items.drop_last()) == Ok::<Seq<RowModel>, Seq<char>>(front));
    } else {
        assert(dependency_items(entries) =~= Seq::<Seq<char>>::empty());
        assert(entries =~= Seq::<RowModel>::empty());
    }
}

/// Law: parsing the list written for dependencies gives back the same dependencies.
pub proof fn lemma_dependencies_round_trip(entries: Seq<RowModel>)
    requires
        writable_dependencies(entries),
    ensures
        dependency_entries(pieces(joined(dependency_items(entries), ","@), ',')) == Ok::<
            Seq<RowModel>,
            Seq<char>,
        >(entries),
{
    reveal_strlit(",");
    assert(","@ =~= seq![',']);
    if entries.len() == 0 {
        assert(joined(dependency_items(entries), ","@) =~= Seq::<char>::empty());
        assert(pieces(Seq::<char>::empty(), ',') =~= seq![Seq::<char>::empty()]);
        assert(seq![Seq::<char>::empty()].drop_last() =~= Seq::<Seq<char>>::empty());
        assert(trimmed(Seq::<char>::empty()) =~= Seq::<char>::empty());
        assert(entries =~= Seq::<RowModel>::empty());
        let listed = seq![Seq::<char>::empty()];
        assert(dependency_entries(listed.drop_last()) == Ok::<Seq<RowModel>, Seq<char>>(
            Seq::empty(),
        ));
        assert(dependency_entries(listed) == Ok::<Seq<RowModel>, Seq<char>>(Seq::empty()));
    } else {
        let items = dependency_items(entries);
        assert forall|index: int| 0 <= index < items.len() implies !(#[trigger] items[index]).contains(
            ',',
        ) by {
            let (name, condition) = entries[index];
            lemma_condition_plain(condition);
            reveal_strlit(":");
            let item = name + ":"@ + condition;
            assert(items[index] == item);
            if item.contains(',') {
                let position = choose|position: int| 0 <= position < item.len() && item[position] == ',';
                if position < name.len() {
                    assert(name[position] == ',');
                } else if position == name.len() {
                } else {
                    assert(condition[position - name.len() - 1] == ',');
                }
            }
        }
        lemma_pieces_joined(items, ',');
        assert(joined(items, ","@) == joined(items, seq![',']));
        lemma_dependency_entries_items(entries);
    }
}

} // verus!
