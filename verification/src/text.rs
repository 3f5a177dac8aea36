//! Character-level text helpers shared by every view of the interface.

use vstd::prelude::*;

verus! {

/// Terminal display width of a text as ratatui measures a line: it splits the text at line
/// breaks and adds up the `unicode-width` widths of the parts.
pub uninterp spec fn display_width(text: Seq<char>) -> nat;

/// Appends one character to a string.
///
/// Calls `String::push`; std documents that the character is appended at the end.
#[verifier::external_body]
pub(crate) fn push_char(text: &mut String, character: char)
    ensures
        final(text)@ == old(text)@.push(character),
{
    text.push(character);
}

/// Terminal display width of a text.
///
/// Calls `ratatui::text::Line::width` on the line made from the text (which splits it at line
/// breaks into spans); the result is named, not described.
#[verifier::external_body]
pub(crate) fn width(text: &str) -> (result: usize)
    ensures
        result == display_width(text@),
{
    ratatui::text::Line::from(text).width()
}

/// The characters of a text, in order.
pub fn chars_of(text: &str) -> (result: Vec<char>)
    ensures
        result@ == text@,
{
    let mut result: Vec<char> = Vec::new();
    for character in iter: text.chars()
        invariant
            result@ == iter.seq().take(iter.index() as int),
    {
        result.push(character);
    }
    result
}

/// A string made of the given characters.
pub fn string_of(characters: &[char]) -> (result: String)
    ensures
        result@ == characters@,
{
    let mut result = String::new();
    let mut index: usize = 0;
    while index < characters.len()
        invariant
            index <= characters@.len(),
            result@ == characters@.take(index as int),
        decreases characters@.len() - index,
    {
        push_char(&mut result, characters[index]);
        index += 1;
        assert(characters@.take(index as int) == characters@.take(index - 1).push(characters@[index - 1]));
    }
    assert(characters@.take(characters@.len() as int) == characters@);
    result
}


/// A string made of the characters from `start` up to `end`.
pub fn string_of_range(characters: &[char], start: usize, end: usize) -> (result: String)
    requires
        start <= end <= characters@.len(),
    ensures
        result@ == characters@.subrange(start as int, end as int),
{
    let mut result = String::new();
    let mut index = start;
    while index < end
        invariant
            start <= index <= end <= characters@.len(),
            result@ == characters@.subrange(start as int, index as int),
        decreases end - index,
    {
        push_char(&mut result, characters[index]);
        index += 1;
        assert(characters@.subrange(start as int, index as int) == characters@.subrange(
            start as int,
            index - 1,
        ).push(characters@[index - 1]));
    }
    result
}

/// Appends a text at the end of a string.
pub fn append_text(target: &mut String, text: &str)
    ensures
        final(target)@ == old(target)@ + text@,
{
    let ghost start = target@;
    for character in iter: text.chars()
        invariant
            target@ == start + iter.seq().take(iter.index() as int),
    {
        push_char(target, character);
        assert(iter.seq().take(iter.index() + 1) == iter.seq().take(iter.index() as int).push(
            character,
        ));
    }
    assert(text@.take(text@.len() as int) == text@);
}

/// Texts joined with a separator between neighbours.
pub open spec fn joined(parts: Seq<Seq<char>>, separator: Seq<char>) -> Seq<char>
    decreases parts.len(),
{
    if parts.len() == 0 {
        Seq::empty()
    } else if parts.len() == 1 {
        parts[0]
    } else {
        joined(parts.drop_last(), separator) + separator + parts.last()
    }
}

/// The text with `character` inserted before the character at `index`.
pub fn insert_char_at(text: &str, index: usize, character: char) -> (result: String)
    requires
        index <= text@.len(),
    ensures
        result@ == text@.insert(index as int, character),
{
    let characters = chars_of(text);
    let mut result = String::new();
    let mut position: usize = 0;
    while position < characters.len()
        invariant
            index <= characters@.len(),
            characters@ == text@,
            position <= characters@.len(),
            result@ == (if position <= index {
                characters@.take(position as int)
            } else {
                characters@.take(index as int).push(character) + characters@.subrange(
                    index as int,
                    position as int,
                )
            }),
        decreases characters@.len() - position,
    {
        if position == index {
            push_char(&mut result, character);
        }
        push_char(&mut result, characters[position]);
        position += 1;
        assert(characters@.take(position as int) == characters@.take(position - 1).push(
            characters@[position - 1],
        ));
        if position > index {
            assert(characters@.subrange(index as int, position as int) == characters@.subrange(
                index as int,
                position - 1,
            ).push(characters@[position - 1]));
        }
    }
    if index == characters.len() {
        push_char(&mut result, character);
    }
    assert(characters@.take(characters@.len() as int) == characters@);
    assert(text@.insert(index as int, character) == characters@.take(index as int).push(character)
        + characters@.subrange(index as int, characters@.len() as int));
    result
}

/// The text without the character at `index`.
pub fn remove_char_at(text: &str, index: usize) -> (result: String)
    requires
        index < text@.len(),
    ensures
        result@ == text@.remove(index as int),
{
    let characters = chars_of(text);
    let mut result = String::new();
    let mut position: usize = 0;
    while position < characters.len()
        invariant
            index < characters@.len(),
            characters@ == text@,
            position <= characters@.len(),
            result@ == (if position <= index {
                characters@.take(position as int)
            } else {
                characters@.take(index as int) + characters@.subrange(index + 1, position as int)
            }),
        decreases characters@.len() - position,
    {
        if position != index {
            push_char(&mut result, characters[position]);
        }
        position += 1;
        assert(characters@.take(position as int) == characters@.take(position - 1).push(
            characters@[position - 1],
        ));
        if position > index + 1 {
            assert(characters@.subrange(index + 1, position as int) == characters@.subrange(
                index + 1,
                position - 1,
            ).push(characters@[position - 1]));
        } else if position == index + 1 {
            assert(characters@.subrange(index + 1, position as int) == Seq::<char>::empty());
        }
    }
    assert(text@.remove(index as int) == characters@.take(index as int) + characters@.subrange(
        index + 1,
        characters@.len() as int,
    ));
    result
}

/// Whether a character has the Unicode `White_Space` property: tab, line feed, vertical
/// tab, form feed, carriage return, space, next line, no-break space, ogham space mark, the
/// spaces from en quad to hair space, line and paragraph separators, narrow no-break space,
/// medium mathematical space and ideographic space.
pub open spec fn white_space(character: char) -> bool {
    let code = character as u32;
    ||| 0x09 <= code <= 0x0D
    ||| code == 0x20
    ||| code == 0x85
    ||| code == 0xA0
    ||| code == 0x1680
    ||| 0x2000 <= code <= 0x200A
    ||| code == 0x2028
    ||| code == 0x2029
    ||| code == 0x202F
    ||| code == 0x205F
    ||| code == 0x3000
}

/// Text decoded from bytes as lossy UTF-8 (invalid sequences become U+FFFD).
pub uninterp spec fn utf8_lossy(bytes: Seq<u8>) -> Seq<char>;

/// Full Unicode lowercase mapping of a text.
pub uninterp spec fn unicode_lowercase(text: Seq<char>) -> Seq<char>;

/// Whether a character is Unicode white space, the `White_Space` property of the Unicode
/// character database.
pub(crate) fn is_white_space(character: char) -> (result: bool)
    ensures
        result == white_space(character),
{
    let code = character as u32;
    (0x09 <= code && code <= 0x0D) || code == 0x20 || code == 0x85 || code == 0xA0 || code == 0x1680
        || (0x2000 <= code && code <= 0x200A) || code == 0x2028 || code == 0x2029 || code == 0x202F
        || code == 0x205F || code == 0x3000
}

/// Decodes bytes as UTF-8, replacing invalid sequences.
///
/// Calls `String::from_utf8_lossy`; the decoded text is named. Beyond the name the contract
/// states only that decoding yields at most one character per byte (every character comes
/// from at least one byte, and each invalid sequence becomes one replacement character) and
/// that a string never holds more than `isize::MAX` characters.
#[verifier::external_body]
pub(crate) fn decode_lossy(bytes: &[u8]) -> (result: String)
    ensures
        result@ == utf8_lossy(bytes@),
        result@.len() <= bytes@.len(),
        result@.len() <= isize::MAX,
{
    String::from_utf8_lossy(bytes).into_owned()
}

/// Unicode lowercase of a text.
///
/// Calls `str::to_lowercase`; the mapping is named.
#[verifier::external_body]
pub(crate) fn lowercase(text: &str) -> (result: String)
    ensures
        result@ == unicode_lowercase(text@),
{
    text.to_lowercase()
}

/// ASCII lowercase of one character; other characters are unchanged.
pub open spec fn ascii_lower(character: char) -> char {
    if 'A' <= character && character <= 'Z' {
        ((character as u32) + 32) as char
    } else {
        character
    }
}

/// ASCII lowercase of a text.
pub open spec fn ascii_lower_text(text: Seq<char>) -> Seq<char> {
    text.map_values(|character: char| ascii_lower(character))
}

/// Whether `pattern` occurs in `text` starting at `index`.
pub open spec fn occurs_at(text: Seq<char>, pattern: Seq<char>, index: int) -> bool {
    0 <= index && index + pattern.len() <= text.len()
        && text.subrange(index, index + pattern.len()) == pattern
}

/// Whether `pattern` occurs anywhere in `text`.
pub open spec fn contains_text(text: Seq<char>, pattern: Seq<char>) -> bool {
    exists|index: int| occurs_at(text, pattern, index)
}

/// The text without its leading white space.
pub open spec fn trim_start(text: Seq<char>) -> Seq<char>
    decreases text.len(),
{
    if text.len() > 0 && white_space(text[0]) {
        trim_start(text.drop_first())
    } else {
        text
    }
}

/// The text without its trailing white space.
pub open spec fn trim_end(text: Seq<char>) -> Seq<char>
    decreases text.len(),
{
    if text.len() > 0 && white_space(text.last()) {
        trim_end(text.drop_last())
    } else {
        text
    }
}

/// The text without leading and trailing white space.
pub open spec fn trimmed(text: Seq<char>) -> Seq<char> {
    trim_end(trim_start(text))
}

/// Lemma: removing trailing white space keeps a prefix that is empty or ends in a
/// character that is not white space.
pub proof fn lemma_trim_end_prefix(text: Seq<char>)
    ensures
        trim_end(text).len() <= text.len(),
        trim_end(text) == text.take(trim_end(text).len() as int),
        trim_end(text).len() == 0 || !white_space(trim_end(text).last()),
    decreases text.len(),
{
    if text.len() > 0 && white_space(text.last()) {
        lemma_trim_end_prefix(text.drop_last());
        let kept = trim_end(text.drop_last());
        assert(text.drop_last().take(kept.len() as int) == text.take(kept.len() as int));
    } else {
        assert(text.take(text.len() as int) == text);
    }
}

/// Lemma: removing leading white space leaves a text that is empty or starts with a
/// character that is not white space.
pub proof fn lemma_trim_start_shape(text: Seq<char>)
    ensures
        trim_start(text).len() == 0 || !white_space(trim_start(text)[0]),
    decreases text.len(),
{
    if text.len() > 0 && white_space(text[0]) {
        lemma_trim_start_shape(text.drop_first());
    }
}

/// Lemma: trimming a trimmed text changes nothing.
pub proof fn lemma_trim_idempotent(text: Seq<char>)
    ensures
        trimmed(trimmed(text)) == trimmed(text),
{
    let start = trim_start(text);
    let both = trim_end(start);
    lemma_trim_start_shape(text);
    lemma_trim_end_prefix(start);
    if both.len() > 0 {
        assert(both[0] == start[0]);
    }
    assert(trim_start(both) == both);
    lemma_trim_end_prefix(both);
    if both.len() > 0 {
        assert(!white_space(both.last()));
    }
    assert(trim_end(both) == both);
}

/// Whether the text holds nothing but white space.
pub open spec fn is_blank(text: Seq<char>) -> bool {
    forall|index: int| 0 <= index < text.len() ==> white_space(#[trigger] text[index])
}

/// ASCII lowercase of one character.
pub fn lower_ascii_char(character: char) -> (result: char)
    ensures
        result == ascii_lower(character),
{
    if 'A' <= character && character <= 'Z' {
        let code = character as u8;
        (code + 32) as char
    } else {
        character
    }
}

/// ASCII lowercase of a character sequence.
pub fn lower_ascii(text: &[char]) -> (result: Vec<char>)
    ensures
        result@ == ascii_lower_text(text@),
{
    let mut result: Vec<char> = Vec::new();
    let mut index: usize = 0;
    while index < text.len()
        invariant
            index <= text@.len(),
            result@ == ascii_lower_text(text@.take(index as int)),
        decreases text@.len() - index,
    {
        result.push(lower_ascii_char(text[index]));
        index += 1;
        assert(ascii_lower_text(text@.take(index as int)) =~= ascii_lower_text(
            text@.take(index - 1),
        ).push(ascii_lower(text@[index - 1])));
    }
    assert(text@.take(text@.len() as int) =~= text@);
    result
}

/// Whether `pattern` occurs in `text` at `index`.
fn matches_at(text: &[char], pattern: &[char], index: usize) -> (result: bool)
    requires
        index + pattern@.len() <= text@.len(),
    ensures
        result == occurs_at(text@, pattern@, index as int),
{
    let mut offset: usize = 0;
    assert(text@.len() == text.len());
    while offset < pattern.len()
        invariant
            offset <= pattern@.len(),
            index + pattern@.len() <= text@.len(),
            text@.len() == text.len(),
            forall|k: int| 0 <= k < offset ==> text@[index + k] == pattern@[k],
        decreases pattern@.len() - offset,
    {
        if text[index + offset] != pattern[offset] {
            assert(text@.subrange(index as int, index + pattern@.len())[offset as int]
                != pattern@[offset as int]);
            return false;
        }
        offset += 1;
    }
    assert(text@.subrange(index as int, index + pattern@.len()) =~= pattern@);
    true
}

/// Whether `pattern` occurs anywhere in `text`.
pub fn contains(text: &[char], pattern: &[char]) -> (result: bool)
    ensures
        result == contains_text(text@, pattern@),
{
    if pattern.len() == 0 {
        assert(text@.subrange(0, 0) =~= pattern@);
        assert(occurs_at(text@, pattern@, 0));
        return true;
    }
    if pattern.len() > text.len() {
        return false;
    }
    let end = text.len() - pattern.len() + 1;
    let mut index: usize = 0;
    while index < end
        invariant
            end + pattern@.len() == text@.len() + 1,
            index <= end,
            forall|k: int| 0 <= k < index ==> !occurs_at(text@, pattern@, k),
        decreases end - index,
    {
        if matches_at(text, pattern, index) {
            return true;
        }
        index += 1;
    }
    assert forall|k: int| !occurs_at(text@, pattern@, k) by {
        if 0 <= k && k + pattern@.len() <= text@.len() {
            assert(k < end);
        }
    }
    false
}

/// Lemma: dropping one leading white space character keeps the trimmed start.
proof fn lemma_trim_start_step(text: Seq<char>, start: int)
    requires
        0 <= start < text.len(),
        white_space(text[start]),
    ensures
        trim_start(text.subrange(start, text.len() as int)) == trim_start(
            text.subrange(start + 1, text.len() as int),
        ),
{
    assert(text.subrange(start, text.len() as int).drop_first() =~= text.subrange(
        start + 1,
        text.len() as int,
    ));
}

/// Lemma: dropping one trailing white space character keeps the trimmed end.
proof fn lemma_trim_end_step(text: Seq<char>, end: int)
    requires
        0 < end <= text.len(),
        white_space(text[end - 1]),
    ensures
        trim_end(text.subrange(0, end)) == trim_end(text.subrange(0, end - 1)),
{
    assert(text.subrange(0, end).drop_last() =~= text.subrange(0, end - 1));
}

/// The characters of a text without leading and trailing white space.
#[verifier::rlimit(30)]
pub fn trim_chars(text: &[char]) -> (result: Vec<char>)
    ensures
        result@ == trimmed(text@),
{
    let length = text.len();
    let mut start: usize = 0;
    assert(text@.subrange(0, length as int) =~= text@);
    while start < length && is_white_space(text[start])
        invariant
            start <= length == text@.len(),
            trim_start(text@) == trim_start(text@.subrange(start as int, length as int)),
        decreases length - start,
    {
        proof {
            lemma_trim_start_step(text@, start as int);
        }
        start += 1;
    }
    let ghost rest = text@.subrange(start as int, length as int);
    assert(trim_start(text@) == rest);
    let mut end: usize = length;
    assert(rest.subrange(0, (end - start) as int) =~= rest);
    while end > start && is_white_space(text[end - 1])
        invariant
            start <= end <= length == text@.len(),
            rest == text@.subrange(start as int, length as int),
            trim_end(rest) == trim_end(rest.subrange(0, end - start)),
        decreases end,
    {
        proof {
            lemma_trim_end_step(rest, end - start);
        }
        end -= 1;
    }
    assert(trim_end(rest) == rest.subrange(0, end - start));
    let mut result: Vec<char> = Vec::new();
    let mut index: usize = start;
    while index < end
        invariant
            start <= index <= end <= length == text@.len(),
            result@ == text@.subrange(start as int, index as int),
        decreases end - index,
    {
        result.push(text[index]);
        index += 1;
        assert(text@.subrange(start as int, index as int) =~= text@.subrange(
            start as int,
            index - 1,
        ).push(text@[index - 1]));
    }
    assert(rest.subrange(0, end - start) =~= text@.subrange(start as int, end as int));
    result
}

/// Lemma: a text is blank exactly when trimming it leaves nothing.
pub proof fn lemma_blank_iff_trimmed_empty(text: Seq<char>)
    ensures
        is_blank(text) <==> trimmed(text).len() == 0,
    decreases text.len(),
{
    if text.len() > 0 {
        if white_space(text[0]) {
            lemma_blank_iff_trimmed_empty(text.drop_first());
            if is_blank(text.drop_first()) {
                assert forall|index: int| 0 <= index < text.len() implies white_space(
                    #[trigger] text[index],
                ) by {
                    if index > 0 {
                        assert(text[index] == text.drop_first()[index - 1]);
                    }
                }
            } else {
                let k = choose|k: int|
                    0 <= k < text.drop_first().len() && !white_space(#[trigger] text.drop_first()[k]);
                assert(text[k + 1] == text.drop_first()[k]);
            }
        } else {
            lemma_trim_end_keeps_first(text);
        }
    } else {
        assert(trimmed(text) == text);
    }
}

/// Lemma: trimming the end of a text whose first character is not white space keeps that character.
proof fn lemma_trim_end_keeps_first(text: Seq<char>)
    requires
        text.len() > 0,
        !white_space(text[0]),
    ensures
        trim_end(text).len() > 0,
    decreases text.len(),
{
    if white_space(text.last()) {
        assert(text.len() > 1);
        assert(text.drop_last()[0] == text[0]);
        lemma_trim_end_keeps_first(text.drop_last());
    }
}

/// Whether a text holds nothing but white space.
pub fn blank(text: &[char]) -> (result: bool)
    ensures
        result == is_blank(text@),
{
    let mut index: usize = 0;
    while index < text.len()
        invariant
            index <= text@.len(),
            forall|k: int| 0 <= k < index ==> white_space(#[trigger] text@[k]),
        decreases text@.len() - index,
    {
        if !is_white_space(text[index]) {
            return false;
        }
        index += 1;
    }
    true
}


/// Whether two strings hold the same text.
pub fn same_text(left: &String, right: &String) -> (result: bool)
    ensures
        result == (left@ == right@),
{
    *left == *right
}

/// Whether two optional strings hold the same text.
pub fn same_optional_text(left: &Option<String>, right: &Option<String>) -> (result: bool)
    ensures
        result == (left.deep_view() == right.deep_view()),
{
    match (left, right) {
        (Some(left), Some(right)) => same_text(left, right),
        (None, None) => true,
        _ => false,
    }
}

/// Whether two string lists hold the same texts in the same order.
pub fn same_text_list(left: &Vec<String>, right: &Vec<String>) -> (result: bool)
    ensures
        result == (left.deep_view() == right.deep_view()),
{
    if left.len() != right.len() {
        assert(left.deep_view().len() != right.deep_view().len());
        return false;
    }
    let mut index: usize = 0;
    while index < left.len()
        invariant
            index <= left@.len() == right@.len(),
            forall|k: int| 0 <= k < index ==> left@[k]@ == right@[k]@,
        decreases left@.len() - index,
    {
        if !same_text(&left[index], &right[index]) {
            assert(left.deep_view()[index as int] != right.deep_view()[index as int]);
            return false;
        }
        index += 1;
    }
    assert(left.deep_view() =~= right.deep_view());
    true
}

/// A copy of an optional string.
pub fn copy_optional_text(text: &Option<String>) -> (result: Option<String>)
    ensures
        result.deep_view() == text.deep_view(),
{
    match text {
        Some(text) => Some(text.clone()),
        None => None,
    }
}

/// A copy of a string list.
pub fn copy_text_list(texts: &Vec<String>) -> (result: Vec<String>)
    ensures
        result.deep_view() == texts.deep_view(),
{
    let mut result: Vec<String> = Vec::new();
    let mut index: usize = 0;
    while index < texts.len()
        invariant
            index <= texts@.len(),
            result@.len() == index,
            forall|k: int| 0 <= k < index ==> result@[k]@ == texts@[k]@,
        decreases texts@.len() - index,
    {
        result.push(texts[index].clone());
        index += 1;
    }
    assert(result.deep_view() =~= texts.deep_view());
    result
}


/// The string without its last character; an empty string stays empty.
pub fn without_last_char(text: &String) -> (result: String)
    ensures
        result@ == (if text@.len() > 0 {
            text@.drop_last()
        } else {
            text@
        }),
{
    let mut characters = chars_of(text.as_str());
    if characters.len() > 0 {
        characters.pop();
    }
    string_of(characters.as_slice())
}

} // verus!
