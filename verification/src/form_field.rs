//! Editable fields of the configuration form dialogs.

use vstd::prelude::*;
use vstd::utf8::{encode_scalar, encode_utf8};

use crate::text::{chars_of, copy_text_list};

verus! {

/// Kind of input a dialog field offers.
#[derive(Clone, Copy, Debug, PartialEq, Eq, Structural)]
pub enum DialogFieldKind {
    /// Free text.
    Text,
    /// One of fixed choices.
    Choice,
    /// A key-value table edited in its own sub-dialog.
    Table,
    /// A directory typed or browsed.
    Directory,
}

/// A dialog field: its label, its text, its choices, a character cursor and its kind.
#[derive(Clone, Debug)]
pub struct DialogField {
    /// Label shown before the value.
    pub label: String,
    /// Current text.
    pub value: String,
    /// Allowed values of a choice field.
    pub choices: Vec<String>,
    /// Cursor position, in characters.
    pub cursor: usize,
    /// Kind of input.
    pub kind: DialogFieldKind,
}

/// A dialog field as a mathematical value.
pub type FieldModel = (Seq<char>, Seq<char>, Seq<Seq<char>>, int, DialogFieldKind);

impl DeepView for DialogField {
    type V = FieldModel;

    open spec fn deep_view(&self) -> FieldModel {
        (self.label@, self.value@, self.choices.deep_view(), self.cursor as int, self.kind)
    }
}

/// A plain text field, or a choice field when `choices` is not empty; the cursor at the end.
pub fn field(label: &str, value: &str, choices: &[&str]) -> (result: DialogField)
    ensures
        result.deep_view() == (
            label@,
            value@,
            choices@.map_values(|choice: &str| choice@),
            value@.len() as int,
            if choices@.len() == 0 {
                DialogFieldKind::Text
            } else {
                DialogFieldKind::Choice
            },
        ),
{
    let mut owned: Vec<String> = Vec::new();
    let mut index: usize = 0;
    while index < choices.len()
        invariant
            index <= choices@.len(),
            owned@.len() == index,
            forall|k: int| 0 <= k < index ==> owned@[k]@ == choices@[k]@,
        decreases choices@.len() - index,
    {
        owned.push(choices[index].to_owned());
        index += 1;
    }
    assert(owned.deep_view() =~= choices@.map_values(|choice: &str| choice@));
    DialogField {
        label: label.to_owned(),
        value: value.to_owned(),
        choices: owned,
        cursor: chars_of(value).len(),
        kind: if choices.len() == 0 {
            DialogFieldKind::Text
        } else {
            DialogFieldKind::Choice
        },
    }
}

/// A choice field whose choices are made at run time; the cursor at the end.
pub fn choice_field(label: &str, value: &str, choices: Vec<String>) -> (result: DialogField)
    ensures
        result.deep_view() == (
            label@,
            value@,
            choices.deep_view(),
            value@.len() as int,
            DialogFieldKind::Choice,
        ),
{
    DialogField {
        label: label.to_owned(),
        value: value.to_owned(),
        choices,
        cursor: chars_of(value).len(),
        kind: DialogFieldKind::Choice,
    }
}

/// A key-value table field holding the table's text; the cursor at the end.
pub fn map_field(label: &str, value: String) -> (result: DialogField)
    ensures
        result.deep_view() == (
            label@,
            value@,
            Seq::<Seq<char>>::empty(),
            value@.len() as int,
            DialogFieldKind::Table,
        ),
{
    let cursor = chars_of(value.as_str()).len();
    let result = DialogField {
        label: label.to_owned(),
        value,
        choices: Vec::new(),
        cursor,
        kind: DialogFieldKind::Table,
    };
    assert(result.choices.deep_view() =~= Seq::<Seq<char>>::empty());
    result
}

/// A directory field that can be typed or browsed; the cursor at the end.
pub fn directory_field(label: &str, value: &str) -> (result: DialogField)
    ensures
        result.deep_view() == (
            label@,
            value@,
            Seq::<Seq<char>>::empty(),
            value@.len() as int,
            DialogFieldKind::Directory,
        ),
{
    let result = DialogField {
        label: label.to_owned(),
        value: value.to_owned(),
        choices: Vec::new(),
        cursor: chars_of(value).len(),
        kind: DialogFieldKind::Directory,
    };
    assert(result.choices.deep_view() =~= Seq::<Seq<char>>::empty());
    result
}

/// Lemma: encoding a text with one more character appends that character's encoding.
pub proof fn lemma_encode_push(text: Seq<char>, character: char)
    ensures
        encode_utf8(text.push(character)) == encode_utf8(text) + encode_scalar(character as u32),
    decreases text.len(),
{
    if text.len() == 0 {
        assert(text.push(character).drop_first() == Seq::<char>::empty());
        assert(encode_utf8(Seq::<char>::empty()) == Seq::<u8>::empty());
        assert(encode_utf8(text.push(character)) == encode_scalar(character as u32) + Seq::<u8>::empty());
    } else {
        assert(text.push(character).drop_first() == text.drop_first().push(character));
        lemma_encode_push(text.drop_first(), character);
        assert(encode_utf8(text.push(character)) == encode_scalar(text[0] as u32) + encode_utf8(
            text.drop_first().push(character),
        ));
    }
}

/// Bytes of the UTF-8 encoding of one character.
fn utf8_width(character: char) -> (result: usize)
    ensures
        result == encode_scalar(character as u32).len(),
{
    let code = character as u32;
    proof {
        vstd::utf8::char_is_scalar(character);
    }
    if code < 0x80 {
        1
    } else if code < 0x800 {
        2
    } else if code < 0x10000 {
        3
    } else {
        4
    }
}

/// Byte position in UTF-8 of the character at `index`; the text's byte length past its end.
pub fn char_to_byte(value: &str, index: usize) -> (result: usize)
    requires
        encode_utf8(value@).len() <= usize::MAX,
    ensures
        result == encode_utf8(value@.take(if index < value@.len() {
            index as int
        } else {
            value@.len() as int
        })).len(),
{
    let characters = chars_of(value);
    let end = if index < characters.len() {
        index
    } else {
        characters.len()
    };
    let mut bytes: usize = 0;
    let mut position: usize = 0;
    assert(characters@.take(0) == Seq::<char>::empty());
    while position < end
        invariant
            characters@ == value@,
            end <= characters@.len(),
            position <= end,
            bytes == encode_utf8(characters@.take(position as int)).len(),
            encode_utf8(value@).len() <= usize::MAX,
        decreases end - position,
    {
        proof {
            lemma_encode_push(characters@.take(position as int), characters@[position as int]);
            assert(characters@.take(position + 1) == characters@.take(position as int).push(
                characters@[position as int],
            ));
            lemma_encoded_prefix(characters@, position + 1);
        }
        bytes = bytes + utf8_width(characters[position]);
        position += 1;
    }
    bytes
}

/// Lemma: a prefix of a text encodes to no more bytes than the text.
pub proof fn lemma_encoded_prefix(text: Seq<char>, count: int)
    requires
        0 <= count <= text.len(),
    ensures
        encode_utf8(text.take(count)).len() <= encode_utf8(text).len(),
    decreases text.len() - count,
{
    if count < text.len() {
        lemma_encoded_prefix(text, count + 1);
        lemma_encode_push(text.take(count), text[count]);
        assert(text.take(count + 1) == text.take(count).push(text[count]));
    } else {
        assert(text.take(count) == text);
    }
}

/// A copy of a field.
pub fn copy_field(field: &DialogField) -> (result: DialogField)
    ensures
        result.deep_view() == field.deep_view(),
{
    DialogField {
        label: field.label.clone(),
        value: field.value.clone(),
        choices: copy_text_list(&field.choices),
        cursor: field.cursor,
        kind: field.kind,
    }
}

} // verus!
