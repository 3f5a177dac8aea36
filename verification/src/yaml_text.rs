//! Lines of the YAML text the configuration form writes back.

use vstd::prelude::*;

use crate::json::{json_quoted, quoted};
use crate::number::{decimal_text, signed_text};
use crate::text::{append_text, push_char};

verus! {

/// `count` spaces.
pub open spec fn spaces(count: int) -> Seq<char> {
    Seq::new(count as nat, |index: int| ' ')
}

/// Appends `count` spaces.
pub(crate) fn append_spaces(text: &mut String, count: usize)
    ensures
        final(text)@ == old(text)@ + spaces(count as int),
{
    let mut index: usize = 0;
    while index < count
        invariant
            index <= count,
            text@ == old(text)@ + spaces(index as int),
        decreases count - index,
    {
        push_char(text, ' ');
        index += 1;
        assert(spaces(index as int) == spaces(index - 1).push(' '));
    }
}

/// A `key: value` line with the value as a JSON string, indented by `indent` spaces.
pub open spec fn string_line(indent: int, key: Seq<char>, value: Seq<char>) -> Seq<char> {
    spaces(indent) + key + ": "@ + json_quoted(value) + "\n"@
}

/// Appends an optional string field; nothing when there is no value.
pub fn optional_yaml(text: &mut String, indent: usize, key: &str, value: Option<&str>)
    ensures
        final(text)@ == match value {
            Some(value) => old(text)@ + string_line(indent as int, key@, value@),
            None => old(text)@,
        },
{
    if let Some(value) = value {
        append_spaces(text, indent);
        append_text(text, key);
        append_text(text, ": ");
        append_text(text, quoted(value).as_str());
        append_text(text, "\n");
    }
}

/// The lines of a list field: the key, then one `- item` line per item, two spaces deeper.
pub open spec fn list_lines(indent: int, key: Seq<char>, items: Seq<Seq<char>>) -> Seq<char>
    decreases items.len(),
{
    if items.len() == 0 {
        spaces(indent) + key + ":\n"@
    } else {
        list_lines(indent, key, items.drop_last()) + spaces(indent + 2) + "- "@ + items.last() + "\n"@
    }
}

/// Appends a list of strings, each as a JSON string; nothing for an empty list.
pub fn yaml_array(text: &mut String, indent: usize, key: &str, values: &[String])
    requires
        indent + 2 <= usize::MAX,
    ensures
        final(text)@ == if values@.len() == 0 {
            old(text)@
        } else {
            old(text)@ + list_lines(
                indent as int,
                key@,
                values@.map_values(|value: String| json_quoted(value@)),
            )
        },
{
    if values.len() == 0 {
        return;
    }
    let ghost start = text@;
    let ghost items = values@.map_values(|value: String| json_quoted(value@));
    append_spaces(text, indent);
    append_text(text, key);
    append_text(text, ":\n");
    let mut index: usize = 0;
    assert(items.take(0) == Seq::<Seq<char>>::empty());
    while index < values.len()
        invariant
            index <= values@.len(),
            indent + 2 <= usize::MAX,
            items == values@.map_values(|value: String| json_quoted(value@)),
            text@ == start + list_lines(indent as int, key@, items.take(index as int)),
        decreases values@.len() - index,
    {
        assert(items.take(index + 1).drop_last() == items.take(index as int));
        append_spaces(text, indent + 2);
        append_text(text, "- ");
        append_text(text, quoted(values[index].as_str()).as_str());
        append_text(text, "\n");
        index += 1;
    }
    assert(items.take(values@.len() as int) == items);
}

/// Appends a list of integers, the key line always written.
pub fn yaml_i32_array(text: &mut String, indent: usize, key: &str, values: &[i32])
    requires
        indent + 2 <= usize::MAX,
    ensures
        final(text)@ == old(text)@ + list_lines(
            indent as int,
            key@,
            values@.map_values(|value: i32| signed_text(value as int)),
        ),
{
    let ghost start = text@;
    let ghost items = values@.map_values(|value: i32| signed_text(value as int));
    append_spaces(text, indent);
    append_text(text, key);
    append_text(text, ":\n");
    let mut index: usize = 0;
    assert(items.take(0) == Seq::<Seq<char>>::empty());
    while index < values.len()
        invariant
            index <= values@.len(),
            indent + 2 <= usize::MAX,
            items == values@.map_values(|value: i32| signed_text(value as int)),
            text@ == start + list_lines(indent as int, key@, items.take(index as int)),
        decreases values@.len() - index,
    {
        assert(items.take(index + 1).drop_last() == items.take(index as int));
        append_spaces(text, indent + 2);
        append_text(text, "- ");
        append_text(text, decimal_text(values[index] as i64).as_str());
        append_text(text, "\n");
        index += 1;
    }
    assert(items.take(values@.len() as int) == items);
}

} // verus!
