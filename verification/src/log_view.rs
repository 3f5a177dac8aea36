//! ANSI log parsing, plain-text matching and styled line construction.

use vstd::prelude::*;

use crate::number::{parse_unsigned, parse_unsigned_text, unsigned_digits};
use crate::text::{
    ascii_lower_text, chars_of, contains, contains_text, decode_lossy, lower_ascii, push_char,
    string_of, utf8_lossy,
};

verus! {

/// Bold text.
pub const BOLD: u16 = 1;
/// Dim text.
pub const DIM: u16 = 2;
/// Italic text.
pub const ITALIC: u16 = 4;
/// Underlined text.
pub const UNDERLINED: u16 = 8;
/// Slowly blinking text.
pub const SLOW_BLINK: u16 = 16;
/// Rapidly blinking text.
pub const RAPID_BLINK: u16 = 32;
/// Foreground and background swapped.
pub const REVERSED: u16 = 64;
/// Crossed-out text.
pub const CROSSED_OUT: u16 = 256;

/// Terminal colors that log escape sequences select.
#[derive(Clone, Copy, Debug, PartialEq, Eq, Structural)]
pub enum LogColor {
    Black,
    Red,
    Green,
    Yellow,
    Blue,
    Magenta,
    Cyan,
    Gray,
    DarkGray,
    LightRed,
    LightGreen,
    LightYellow,
    LightBlue,
    LightMagenta,
    LightCyan,
    White,
    Reset,
    Indexed(u8),
    Rgb(u8, u8, u8),
}

/// Colors and emphasis of a run of log text; modifiers are bit sets of the constants above.
#[derive(Clone, Copy, Debug, PartialEq, Eq, Structural)]
pub struct LogStyle {
    /// Foreground color, when set.
    pub fg: Option<LogColor>,
    /// Background color, when set.
    pub bg: Option<LogColor>,
    /// Modifiers switched on.
    pub add_modifier: u16,
    /// Modifiers switched off.
    pub sub_modifier: u16,
}

/// The style with nothing set.
pub open spec fn plain_style() -> LogStyle {
    LogStyle { fg: None, bg: None, add_modifier: 0, sub_modifier: 0 }
}

/// The style with `modifier` switched on.
pub open spec fn with_modifier(style: LogStyle, modifier: u16) -> LogStyle {
    LogStyle {
        sub_modifier: style.sub_modifier & !modifier,
        add_modifier: style.add_modifier | modifier,
        ..style
    }
}

/// The style with `modifier` switched off.
pub open spec fn without_modifier(style: LogStyle, modifier: u16) -> LogStyle {
    LogStyle {
        add_modifier: style.add_modifier & !modifier,
        sub_modifier: style.sub_modifier | modifier,
        ..style
    }
}

impl LogStyle {
    /// The style with nothing set.
    pub fn plain() -> (result: LogStyle)
        ensures
            result == plain_style(),
    {
        LogStyle { fg: None, bg: None, add_modifier: 0, sub_modifier: 0 }
    }

    /// The style with `modifier` switched on.
    pub fn add(self, modifier: u16) -> (result: LogStyle)
        ensures
            result == with_modifier(self, modifier),
    {
        LogStyle {
            sub_modifier: self.sub_modifier & !modifier,
            add_modifier: self.add_modifier | modifier,
            ..self
        }
    }

    /// The style with `modifier` switched off.
    pub fn remove(self, modifier: u16) -> (result: LogStyle)
        ensures
            result == without_modifier(self, modifier),
    {
        LogStyle {
            add_modifier: self.add_modifier & !modifier,
            sub_modifier: self.sub_modifier | modifier,
            ..self
        }
    }
}

/// Color of a standard or bright eight-color SGR code.
pub open spec fn basic_color_of(code: int) -> LogColor {
    if code == 30 {
        LogColor::Black
    } else if code == 31 {
        LogColor::Red
    } else if code == 32 {
        LogColor::Green
    } else if code == 33 {
        LogColor::Yellow
    } else if code == 34 {
        LogColor::Blue
    } else if code == 35 {
        LogColor::Magenta
    } else if code == 36 {
        LogColor::Cyan
    } else if code == 37 {
        LogColor::Gray
    } else if code == 90 {
        LogColor::DarkGray
    } else if code == 91 {
        LogColor::LightRed
    } else if code == 92 {
        LogColor::LightGreen
    } else if code == 93 {
        LogColor::LightYellow
    } else if code == 94 {
        LogColor::LightBlue
    } else if code == 95 {
        LogColor::LightMagenta
    } else if code == 96 {
        LogColor::LightCyan
    } else {
        LogColor::White
    }
}

/// A 256-color or RGB color from the parameters that follow 38 or 48, with how many it uses.
pub open spec fn extended_color_of(values: Seq<u16>) -> Option<(LogColor, int)> {
    if values.len() >= 2 && values[0] == 5 {
        if values[1] <= 255 {
            Some((LogColor::Indexed(values[1] as u8), 2))
        } else {
            None
        }
    } else if values.len() >= 4 && values[0] == 2 {
        if values[1] <= 255 && values[2] <= 255 && values[3] <= 255 {
            Some((LogColor::Rgb(values[1] as u8, values[2] as u8, values[3] as u8), 4))
        } else {
            None
        }
    } else {
        None
    }
}

/// Style after the SGR parameter at `index`, and how many following parameters it used.
pub open spec fn sgr_step(style: LogStyle, values: Seq<u16>, index: int) -> (LogStyle, int) {
    let value = values[index] as int;
    if value == 0 {
        (plain_style(), 0)
    } else if value == 1 {
        (with_modifier(style, BOLD), 0)
    } else if value == 2 {
        (with_modifier(style, DIM), 0)
    } else if value == 3 {
        (with_modifier(style, ITALIC), 0)
    } else if value == 4 {
        (with_modifier(style, UNDERLINED), 0)
    } else if value == 5 {
        (with_modifier(style, SLOW_BLINK), 0)
    } else if value == 7 {
        (with_modifier(style, REVERSED), 0)
    } else if value == 9 {
        (with_modifier(style, CROSSED_OUT), 0)
    } else if value == 22 {
        (without_modifier(style, BOLD | DIM), 0)
    } else if value == 23 {
        (without_modifier(style, ITALIC), 0)
    } else if value == 24 {
        (without_modifier(style, UNDERLINED), 0)
    } else if value == 25 {
        (without_modifier(style, SLOW_BLINK | RAPID_BLINK), 0)
    } else if value == 27 {
        (without_modifier(style, REVERSED), 0)
    } else if value == 29 {
        (without_modifier(style, CROSSED_OUT), 0)
    } else if (30 <= value <= 37) || (90 <= value <= 97) {
        (LogStyle { fg: Some(basic_color_of(value)), ..style }, 0)
    } else if value == 39 {
        (LogStyle { fg: Some(LogColor::Reset), ..style }, 0)
    } else if (40 <= value <= 47) || (100 <= value <= 107) {
        (LogStyle { bg: Some(basic_color_of(value - 10)), ..style }, 0)
    } else if value == 49 {
        (LogStyle { bg: Some(LogColor::Reset), ..style }, 0)
    } else if value == 38 || value == 48 {
        match extended_color_of(values.subrange(index + 1, values.len() as int)) {
            Some((color, consumed)) => (
                if value == 38 {
                    LogStyle { fg: Some(color), ..style }
                } else {
                    LogStyle { bg: Some(color), ..style }
                },
                consumed,
            ),
            None => (style, 0),
        }
    } else {
        (style, 0)
    }
}

/// Style after applying the SGR parameters from `index` on.
pub open spec fn sgr_apply(style: LogStyle, values: Seq<u16>, index: int) -> LogStyle
    decreases values.len() - index,
{
    if index < 0 || index >= values.len() {
        style
    } else {
        let (next_style, consumed) = sgr_step(style, values, index);
        if consumed >= 0 {
            sgr_apply(next_style, values, index + 1 + consumed)
        } else {
            next_style
        }
    }
}

/// The pieces of a text between separators, as `str::split` yields them.
pub open spec fn split_text(text: Seq<char>, separator: char) -> Seq<Seq<char>>
    decreases text.len(),
{
    if text.len() == 0 {
        seq![Seq::empty()]
    } else {
        let pieces = split_text(text.drop_last(), separator);
        if text.last() == separator {
            pieces.push(Seq::empty())
        } else {
            pieces.update(pieces.len() - 1, pieces.last().push(text.last()))
        }
    }
}

/// Lemma: splitting always yields at least one piece.
pub proof fn lemma_split_nonempty(text: Seq<char>, separator: char)
    ensures
        split_text(text, separator).len() >= 1,
    decreases text.len(),
{
    if text.len() > 0 {
        lemma_split_nonempty(text.drop_last(), separator);
    }
}

/// Numeric value of one SGR parameter text; unreadable parameters count as 0.
pub open spec fn sgr_parameter(piece: Seq<char>) -> u16 {
    match parse_unsigned(piece, 65535) {
        Some(value) => value as u16,
        None => 0u16,
    }
}

/// Numeric SGR parameters of a parameter text.
pub open spec fn sgr_values(parameters: Seq<char>) -> Seq<u16> {
    if parameters.len() == 0 {
        seq![0u16]
    } else {
        split_text(parameters, ';').map_values(|piece: Seq<char>| sgr_parameter(piece))
    }
}

/// End of a control sequence's parameters: the first final byte from `end` on.
pub open spec fn csi_end(characters: Seq<char>, end: int) -> int
    decreases characters.len() - end,
{
    if end < 0 || end >= characters.len() {
        end
    } else if '\u{40}' <= characters[end] && characters[end] <= '\u{7e}' {
        end
    } else {
        csi_end(characters, end + 1)
    }
}

/// Position after an operating system command that started before `end`.
pub open spec fn osc_end(characters: Seq<char>, end: int) -> int
    decreases characters.len() - end,
{
    if end < 0 || end >= characters.len() {
        characters.len() as int
    } else if characters[end] == '\u{7}' {
        end + 1
    } else if characters[end] == '\u{1b}' && end + 1 < characters.len() && characters[end + 1]
        == '\\' {
        end + 2
    } else {
        osc_end(characters, end + 1)
    }
}

/// Position after the escape sequence at `start`, and the style it leaves.
pub open spec fn escape(characters: Seq<char>, start: int, style: LogStyle) -> (int, LogStyle) {
    let length = characters.len() as int;
    if start + 1 >= length {
        (start + 1, style)
    } else if characters[start + 1] == '[' {
        let end = csi_end(characters, start + 2);
        let next_style = if end < length && characters[end] == 'm' {
            sgr_apply(style, sgr_values(characters.subrange(start + 2, end)), 0)
        } else {
            style
        };
        (if end + 1 < length {
            end + 1
        } else {
            length
        }, next_style)
    } else if characters[start + 1] == ']' {
        (osc_end(characters, start + 2), style)
    } else {
        (if start + 2 < length {
            start + 2
        } else {
            length
        }, style)
    }
}

/// Whether a character is a Unicode control character (general category Cc).
pub open spec fn is_control_char(character: char) -> bool {
    character as u32 <= 0x1f || (0x7f <= character as u32 && character as u32 <= 0x9f)
}

/// A styled run of text: its content and style.
pub type SpanModel = (Seq<char>, LogStyle);

/// A parsed line: its plain text and its styled runs.
pub type LineModel = (Seq<char>, Seq<SpanModel>);

/// The line with the pending segment committed as a styled run, when it is not empty.
pub open spec fn flush(line: LineModel, segment: Seq<char>, style: LogStyle) -> LineModel {
    if segment.len() > 0 {
        (line.0, line.1.push((segment, style)))
    } else {
        line
    }
}

/// Lines of decoded log text from `index` on, given the lines and state reached so far.
pub open spec fn parse_from(
    characters: Seq<char>,
    index: int,
    lines: Seq<LineModel>,
    line: LineModel,
    segment: Seq<char>,
    style: LogStyle,
    ends_with_newline: bool,
) -> Seq<LineModel>
    decreases characters.len() - index,
{
    if index < 0 || index >= characters.len() {
        let last = flush(line, segment, style);
        if last.0.len() > 0 || last.1.len() > 0 || !ends_with_newline {
            lines.push(last)
        } else {
            lines
        }
    } else {
        let character = characters[index];
        if character == '\n' {
            parse_from(
                characters,
                index + 1,
                lines.push(flush(line, segment, style)),
                (Seq::empty(), Seq::empty()),
                Seq::empty(),
                style,
                ends_with_newline,
            )
        } else if character == '\r' {
            parse_from(characters, index + 1, lines, line, segment, style, ends_with_newline)
        } else if character == '\u{1b}' {
            let (next, next_style) = escape(characters, index, style);
            if index < next && next <= characters.len() {
                parse_from(
                    characters,
                    next,
                    lines,
                    flush(line, segment, style),
                    Seq::empty(),
                    next_style,
                    ends_with_newline,
                )
            } else {
                lines
            }
        } else if is_control_char(character) && character != '\t' {
            parse_from(characters, index + 1, lines, line, segment, style, ends_with_newline)
        } else {
            parse_from(
                characters,
                index + 1,
                lines,
                (line.0.push(character), line.1),
                segment.push(character),
                style,
                ends_with_newline,
            )
        }
    }
}

/// Lines of a raw log: color and emphasis escapes become styles, other controls are dropped.
pub open spec fn parse_log(raw: Seq<u8>) -> Seq<LineModel> {
    if raw.len() == 0 {
        Seq::empty()
    } else {
        parse_from(
            utf8_lossy(raw),
            0,
            Seq::empty(),
            (Seq::empty(), Seq::empty()),
            Seq::empty(),
            plain_style(),
            raw.last() == 10,
        )
    }
}

/// Whether a line contains the query, ignoring ASCII case; an empty query matches every line.
pub open spec fn line_matches_query(line: Seq<char>, query: Seq<char>) -> bool {
    query.len() == 0 || contains_text(ascii_lower_text(line), ascii_lower_text(query))
}


/// A styled run of log text.
#[derive(Clone, Debug)]
pub struct StyledSpan {
    /// The run's text.
    pub content: String,
    /// The run's style.
    pub style: LogStyle,
}

impl DeepView for StyledSpan {
    type V = SpanModel;

    open spec fn deep_view(&self) -> SpanModel {
        (self.content@, self.style)
    }
}

/// A copy of a list of styled runs.
pub fn copy_spans(spans: &Vec<StyledSpan>) -> (result: Vec<StyledSpan>)
    ensures
        result.deep_view() == spans.deep_view(),
{
    let mut result: Vec<StyledSpan> = Vec::new();
    let mut index: usize = 0;
    while index < spans.len()
        invariant
            index <= spans@.len(),
            result@.len() == index,
            forall|k: int| 0 <= k < index ==> result@[k].deep_view() == spans@[k].deep_view(),
        decreases spans@.len() - index,
    {
        result.push(StyledSpan { content: spans[index].content.clone(), style: spans[index].style });
        index += 1;
    }
    assert(result.deep_view() =~= spans.deep_view());
    result
}

/// One parsed log line and the text used for matching.
#[derive(Clone, Debug)]
pub struct StyledLine {
    /// The line without escape sequences.
    pub plain: String,
    /// The line's styled runs.
    pub spans: Vec<StyledSpan>,
}

impl DeepView for StyledLine {
    type V = LineModel;

    open spec fn deep_view(&self) -> LineModel {
        (self.plain@, self.spans.deep_view())
    }
}

impl StyledLine {
    /// A line with no text.
    pub fn empty() -> (result: StyledLine)
        ensures
            result.deep_view() == (Seq::<char>::empty(), Seq::<SpanModel>::empty()),
    {
        let result = StyledLine { plain: String::new(), spans: Vec::new() };
        assert(result.spans.deep_view() =~= Seq::<SpanModel>::empty());
        result
    }
}

/// Color of a standard or bright eight-color SGR code.
pub fn basic_color(code: u16) -> (result: LogColor)
    ensures
        result == basic_color_of(code as int),
{
    if code == 30 {
        LogColor::Black
    } else if code == 31 {
        LogColor::Red
    } else if code == 32 {
        LogColor::Green
    } else if code == 33 {
        LogColor::Yellow
    } else if code == 34 {
        LogColor::Blue
    } else if code == 35 {
        LogColor::Magenta
    } else if code == 36 {
        LogColor::Cyan
    } else if code == 37 {
        LogColor::Gray
    } else if code == 90 {
        LogColor::DarkGray
    } else if code == 91 {
        LogColor::LightRed
    } else if code == 92 {
        LogColor::LightGreen
    } else if code == 93 {
        LogColor::LightYellow
    } else if code == 94 {
        LogColor::LightBlue
    } else if code == 95 {
        LogColor::LightMagenta
    } else if code == 96 {
        LogColor::LightCyan
    } else {
        LogColor::White
    }
}

/// A 256-color or RGB color from the parameters after 38 or 48, with how many it uses.
pub fn extended_color(values: &[u16]) -> (result: Option<(LogColor, usize)>)
    ensures
        match extended_color_of(values@) {
            Some((color, consumed)) => result == Some((color, consumed as usize)),
            None => result.is_none(),
        },
{
    if values.len() >= 2 && values[0] == 5 {
        if values[1] <= 255 {
            Some((LogColor::Indexed(values[1] as u8), 2))
        } else {
            None
        }
    } else if values.len() >= 4 && values[0] == 2 {
        if values[1] <= 255 && values[2] <= 255 && values[3] <= 255 {
            Some((LogColor::Rgb(values[1] as u8, values[2] as u8, values[3] as u8), 4))
        } else {
            None
        }
    } else {
        None
    }
}

/// The parameters from `start` on.
fn tail_values(values: &Vec<u16>, start: usize) -> (result: Vec<u16>)
    requires
        start <= values@.len(),
    ensures
        result@ == values@.subrange(start as int, values@.len() as int),
{
    let mut result: Vec<u16> = Vec::new();
    let mut index = start;
    while index < values.len()
        invariant
            start <= index <= values@.len(),
            result@ == values@.subrange(start as int, index as int),
        decreases values@.len() - index,
    {
        result.push(values[index]);
        index += 1;
        assert(result@ =~= values@.subrange(start as int, index as int));
    }
    result
}

/// Numeric value of one SGR parameter; unreadable parameters count as 0.
fn sgr_value(piece: &[char]) -> (result: u16)
    ensures
        result == sgr_parameter(piece@),
{
    let parsed = parse_unsigned_text(piece, 65535);
    let ghost expected = parse_unsigned(piece@, 65535);
    proof {
        match expected {
            Some(value) => {
                assert(value <= 65535);
                assert(parsed == Some(value as u64));
            },
            None => {
                assert(parsed.is_none());
            },
        }
    }
    match parsed {
        Some(value) => value as u16,
        None => 0,
    }
}

/// Numeric SGR parameters of a parameter text.
pub fn sgr_value_list(parameters: &[char]) -> (result: Vec<u16>)
    ensures
        result@ == sgr_values(parameters@),
{
    let mut result: Vec<u16> = Vec::new();
    if parameters.len() == 0 {
        result.push(0);
        assert(result@ =~= seq![0u16]);
        return result;
    }
    let mut current: Vec<char> = Vec::new();
    let mut index: usize = 0;
    assert(parameters@.take(0) =~= Seq::<char>::empty());
    while index < parameters.len()
        invariant
            index <= parameters@.len(),
            split_text(parameters@.take(index as int), ';').len() == result@.len() + 1,
            split_text(parameters@.take(index as int), ';').last() == current@,
            forall|k: int|
                0 <= k < result@.len() ==> result@[k] == sgr_parameter(
                    #[trigger] split_text(parameters@.take(index as int), ';')[k],
                ),
        decreases parameters@.len() - index,
    {
        let ghost before = split_text(parameters@.take(index as int), ';');
        let character = parameters[index];
        index += 1;
        assert(parameters@.take(index as int).drop_last() =~= parameters@.take(index - 1));
        assert(parameters@.take(index as int).last() == character);
        let ghost after = split_text(parameters@.take(index as int), ';');
        if character == ';' {
            assert(after == before.push(Seq::<char>::empty()));
            let value = sgr_value(current.as_slice());
            result.push(value);
            current = Vec::new();
            assert(current@ =~= Seq::<char>::empty());
            assert(result@.last() == sgr_parameter(before.last()));
            assert forall|k: int| 0 <= k < result@.len() implies result@[k] == sgr_parameter(
                #[trigger] after[k],
            ) by {
                assert(after[k] == before[k]);
            }
        } else {
            assert(after == before.update(before.len() - 1, before.last().push(character)));
            current.push(character);
            assert forall|k: int| 0 <= k < result@.len() implies result@[k] == sgr_parameter(
                #[trigger] after[k],
            ) by {
                assert(after[k] == before[k]);
            }
        }
    }
    let value = sgr_value(current.as_slice());
    result.push(value);
    assert(parameters@.take(parameters@.len() as int) =~= parameters@);
    assert(result@ =~= sgr_values(parameters@));
    result
}

/// Applies the SGR parameters from `index` on to a style.
fn apply_sgr_values(style: &mut LogStyle, values: &Vec<u16>)
    ensures
        *final(style) == sgr_apply(*old(style), values@, 0),
{
    let mut index: usize = 0;
    while index < values.len()
        invariant
            sgr_apply(*old(style), values@, 0) == sgr_apply(*style, values@, index as int),
        decreases values@.len() - index,
    {
        let value = values[index];
        if value == 0 {
            *style = LogStyle::plain();
        } else if value == 1 {
            *style = style.add(BOLD);
        } else if value == 2 {
            *style = style.add(DIM);
        } else if value == 3 {
            *style = style.add(ITALIC);
        } else if value == 4 {
            *style = style.add(UNDERLINED);
        } else if value == 5 {
            *style = style.add(SLOW_BLINK);
        } else if value == 7 {
            *style = style.add(REVERSED);
        } else if value == 9 {
            *style = style.add(CROSSED_OUT);
        } else if value == 22 {
            *style = style.remove(BOLD | DIM);
        } else if value == 23 {
            *style = style.remove(ITALIC);
        } else if value == 24 {
            *style = style.remove(UNDERLINED);
        } else if value == 25 {
            *style = style.remove(SLOW_BLINK | RAPID_BLINK);
        } else if value == 27 {
            *style = style.remove(REVERSED);
        } else if value == 29 {
            *style = style.remove(CROSSED_OUT);
        } else if (30 <= value && value <= 37) || (90 <= value && value <= 97) {
            *style = LogStyle { fg: Some(basic_color(value)), ..*style };
        } else if value == 39 {
            *style = LogStyle { fg: Some(LogColor::Reset), ..*style };
        } else if (40 <= value && value <= 47) || (100 <= value && value <= 107) {
            *style = LogStyle { bg: Some(basic_color(value - 10)), ..*style };
        } else if value == 49 {
            *style = LogStyle { bg: Some(LogColor::Reset), ..*style };
        } else if value == 38 || value == 48 {
            let rest = tail_values(values, index + 1);
            match extended_color(rest.as_slice()) {
                Some((color, consumed)) => {
                    *style = if value == 38 {
                        LogStyle { fg: Some(color), ..*style }
                    } else {
                        LogStyle { bg: Some(color), ..*style }
                    };
                    index += consumed;
                },
                None => {},
            }
        }
        index += 1;
    }
}

/// Applies a text of SGR parameters to a style.
pub fn apply_sgr(style: &mut LogStyle, parameters: &[char])
    ensures
        *final(style) == sgr_apply(*old(style), sgr_values(parameters@), 0),
{
    let values = sgr_value_list(parameters);
    apply_sgr_values(style, &values);
}


/// The characters `characters[from..to]`.
fn slice_chars(characters: &Vec<char>, from: usize, to: usize) -> (result: Vec<char>)
    requires
        from <= to <= characters@.len(),
    ensures
        result@ == characters@.subrange(from as int, to as int),
{
    let mut result: Vec<char> = Vec::new();
    let mut index = from;
    while index < to
        invariant
            from <= index <= to <= characters@.len(),
            result@ == characters@.subrange(from as int, index as int),
        decreases to - index,
    {
        result.push(characters[index]);
        index += 1;
        assert(result@ =~= characters@.subrange(from as int, index as int));
    }
    result
}

/// Lemma: the end of a control sequence lies between its start and the end of the text.
proof fn lemma_csi_end(characters: Seq<char>, end: int)
    requires
        0 <= end <= characters.len(),
    ensures
        end <= csi_end(characters, end) <= characters.len(),
    decreases characters.len() - end,
{
    if end < characters.len() && !('\u{40}' <= characters[end] && characters[end] <= '\u{7e}') {
        lemma_csi_end(characters, end + 1);
    }
}

/// Lemma: an operating system command ends after its start and within the text.
proof fn lemma_osc_end(characters: Seq<char>, end: int)
    requires
        0 <= end <= characters.len(),
    ensures
        end <= osc_end(characters, end) <= characters.len(),
    decreases characters.len() - end,
{
    if end < characters.len() && characters[end] != '\u{7}' && !(characters[end] == '\u{1b}' && end
        + 1 < characters.len() && characters[end + 1] == '\\') {
        lemma_osc_end(characters, end + 1);
    }
}

/// Lemma: an escape sequence always moves past its start and stays within the text.
pub proof fn lemma_escape_advances(characters: Seq<char>, start: int, style: LogStyle)
    requires
        0 <= start < characters.len(),
    ensures
        start < escape(characters, start, style).0 <= characters.len(),
{
    if start + 1 < characters.len() {
        if characters[start + 1] == '[' {
            lemma_csi_end(characters, start + 2);
        } else if characters[start + 1] == ']' {
            lemma_osc_end(characters, start + 2);
        }
    }
}

/// Consumes the escape sequence at `start`, applying color changes; returns the next position.
pub fn consume_escape(characters: &Vec<char>, start: usize, style: &mut LogStyle) -> (result: usize)
    requires
        start < characters@.len(),
    ensures
        (result as int, *final(style)) == escape(characters@, start as int, *old(style)),
{
    let length = characters.len();
    if start + 1 >= length {
        return start + 1;
    }
    let prefix = characters[start + 1];
    if prefix == '[' {
        let mut end = start + 2;
        while end < length && !('\u{40}' <= characters[end] && characters[end] <= '\u{7e}')
            invariant
                start + 2 <= end <= length == characters@.len(),
                csi_end(characters@, start + 2) == csi_end(characters@, end as int),
            decreases length - end,
        {
            end += 1;
        }
        if end < length && characters[end] == 'm' {
            let parameters = slice_chars(characters, start + 2, end);
            apply_sgr(style, parameters.as_slice());
        }
        return if end < length {
            end + 1
        } else {
            length
        };
    }
    if prefix == ']' {
        let mut end = start + 2;
        while end < length
            invariant
                start + 2 <= end <= length == characters@.len(),
                osc_end(characters@, start + 2) == osc_end(characters@, end as int),
                start + 1 < length,
                characters@[start + 1] == ']',
                *style == *old(style),
            decreases length - end,
        {
            if characters[end] == '\u{7}' {
                return end + 1;
            }
            if characters[end] == '\u{1b}' && end + 1 < length && characters[end + 1] == '\\' {
                return end + 2;
            }
            end += 1;
        }
        return length;
    }
    if start + 2 < length {
        start + 2
    } else {
        length
    }
}

/// Whether a character is a Unicode control character.
pub fn is_control(character: char) -> (result: bool)
    ensures
        result == is_control_char(character),
{
    let code = character as u32;
    code <= 0x1f || (0x7f <= code && code <= 0x9f)
}

/// Commits the pending segment to the line as a styled run.
fn push_segment(line: &mut StyledLine, segment: &mut String, style: LogStyle)
    ensures
        final(line).deep_view() == flush(old(line).deep_view(), old(segment)@, style),
        final(segment)@ == Seq::<char>::empty(),
{
    if !segment.as_str().is_empty() {
        let mut taken = String::new();
        std::mem::swap(&mut taken, segment);
        let ghost before = line.spans.deep_view();
        let ghost content = taken@;
        line.spans.push(StyledSpan { content: taken, style });
        assert(line.spans.deep_view() =~= before.push((content, style)));
    }
}


/// Parses a raw log into lines: common SGR colors and emphasis become styles, other
/// control sequences and control characters are dropped.
pub fn parse(raw: &[u8]) -> (result: Vec<StyledLine>)
    ensures
        result.deep_view() == parse_log(raw@),
        parse_log(raw@).len() <= isize::MAX + 1,
{
    proof {
        lemma_parse_length(raw@);
    }
    if raw.len() == 0 {
        let result: Vec<StyledLine> = Vec::new();
        assert(parse_log(raw@).len() == 0);
        assert(result.deep_view() =~= Seq::<LineModel>::empty());
        return result;
    }
    let text = decode_lossy(raw);
    let characters = chars_of(text.as_str());
    assert(characters@.len() <= isize::MAX);
    let ends_with_newline = raw[raw.len() - 1] == 10;
    let mut lines: Vec<StyledLine> = Vec::new();
    let mut line = StyledLine::empty();
    let mut segment = String::new();
    let mut style = LogStyle::plain();
    let mut index: usize = 0;
    let ghost start_line: LineModel = (Seq::empty(), Seq::empty());
    assert(lines.deep_view() =~= Seq::<LineModel>::empty());
    while index < characters.len()
        invariant
            index <= characters@.len(),
            characters@ == utf8_lossy(raw@),
            ends_with_newline == (raw@.last() == 10),
            parse_log(raw@) == parse_from(
                characters@,
                index as int,
                lines.deep_view(),
                line.deep_view(),
                segment@,
                style,
                ends_with_newline,
            ),
        decreases characters@.len() - index,
    {
        let character = characters[index];
        if character == '\n' {
            push_segment(&mut line, &mut segment, style);
            let ghost before = lines.deep_view();
            let ghost finished = line.deep_view();
            lines.push(line);
            assert(lines.deep_view() =~= before.push(finished));
            line = StyledLine::empty();
            index += 1;
        } else if character == '\r' {
            index += 1;
        } else if character == '\u{1b}' {
            proof {
                lemma_escape_advances(characters@, index as int, style);
            }
            push_segment(&mut line, &mut segment, style);
            index = consume_escape(&characters, index, &mut style);
        } else if is_control(character) && character != '\t' {
            index += 1;
        } else {
            push_char(&mut line.plain, character);
            push_char(&mut segment, character);
            index += 1;
        }
    }
    push_segment(&mut line, &mut segment, style);
    if !line.plain.as_str().is_empty() || line.spans.len() > 0 || !ends_with_newline {
        let ghost before = lines.deep_view();
        let ghost finished = line.deep_view();
        lines.push(line);
        assert(lines.deep_view() =~= before.push(finished));
    }
    lines
}


/// Plain texts of the lines kept by the filter, in order.
pub open spec fn visible_from(lines: Seq<LineModel>, query: Seq<char>, filtered: bool) -> Seq<Seq<char>>
    decreases lines.len(),
{
    if lines.len() == 0 {
        Seq::empty()
    } else {
        let rest = visible_from(lines.drop_last(), query, filtered);
        if !filtered || line_matches_query(lines.last().0, query) {
            rest.push(lines.last().0)
        } else {
            rest
        }
    }
}

/// Plain texts of a raw log's lines under the current search and filter.
pub open spec fn visible_text(raw: Seq<u8>, query: Seq<char>, filtered: bool) -> Seq<Seq<char>> {
    visible_from(parse_log(raw), query, filtered)
}

/// Indices of the texts that contain the query, in increasing order.
pub open spec fn matching_indices(lines: Seq<Seq<char>>, query: Seq<char>) -> Seq<int>
    decreases lines.len(),
{
    if lines.len() == 0 {
        Seq::empty()
    } else {
        let rest = matching_indices(lines.drop_last(), query);
        if line_matches_query(lines.last(), query) {
            rest.push(lines.len() - 1)
        } else {
            rest
        }
    }
}

/// Indices of the visible lines that match a non-empty query.
pub open spec fn match_indices(raw: Seq<u8>, query: Seq<char>, filtered: bool) -> Seq<int> {
    if query.len() == 0 {
        Seq::empty()
    } else {
        matching_indices(visible_text(raw, query, filtered), query)
    }
}

/// Lemma: parsing from `index` adds at most one line per remaining character, plus one.
pub proof fn lemma_parse_from_length(
    characters: Seq<char>,
    index: int,
    lines: Seq<LineModel>,
    line: LineModel,
    segment: Seq<char>,
    style: LogStyle,
    ends_with_newline: bool,
)
    requires
        0 <= index <= characters.len(),
    ensures
        parse_from(characters, index, lines, line, segment, style, ends_with_newline).len()
            <= lines.len() + characters.len() - index + 1,
    decreases characters.len() - index,
{
    if index < characters.len() {
        let character = characters[index];
        if character == '\n' {
            lemma_parse_from_length(
                characters,
                index + 1,
                lines.push(flush(line, segment, style)),
                (Seq::empty(), Seq::empty()),
                Seq::empty(),
                style,
                ends_with_newline,
            );
        } else if character == '\r' {
            lemma_parse_from_length(characters, index + 1, lines, line, segment, style, ends_with_newline);
        } else if character == '\u{1b}' {
            let (next, next_style) = escape(characters, index, style);
            lemma_escape_advances(characters, index, style);
            lemma_parse_from_length(
                characters,
                next,
                lines,
                flush(line, segment, style),
                Seq::empty(),
                next_style,
                ends_with_newline,
            );
        } else if is_control_char(character) && character != '\t' {
            lemma_parse_from_length(characters, index + 1, lines, line, segment, style, ends_with_newline);
        } else {
            lemma_parse_from_length(
                characters,
                index + 1,
                lines,
                (line.0.push(character), line.1),
                segment.push(character),
                style,
                ends_with_newline,
            );
        }
    }
}

/// Lemma: a raw log never has more lines than decoded characters plus one.
pub proof fn lemma_parse_length(raw: Seq<u8>)
    ensures
        parse_log(raw).len() <= utf8_lossy(raw).len() + 1,
{
    if raw.len() > 0 {
        lemma_parse_from_length(
            utf8_lossy(raw),
            0,
            Seq::empty(),
            (Seq::empty(), Seq::empty()),
            Seq::empty(),
            plain_style(),
            raw.last() == 10,
        );
    }
}

/// Lemma: filtering keeps at most as many lines as there are.
pub proof fn lemma_visible_length(lines: Seq<LineModel>, query: Seq<char>, filtered: bool)
    ensures
        visible_from(lines, query, filtered).len() <= lines.len(),
    decreases lines.len(),
{
    if lines.len() > 0 {
        lemma_visible_length(lines.drop_last(), query, filtered);
    }
}

/// Lemma: match indices are increasing positions within the searched lines.
pub proof fn lemma_matching_indices(lines: Seq<Seq<char>>, query: Seq<char>)
    ensures
        matching_indices(lines, query).len() <= lines.len(),
        forall|k: int|
            0 <= k < matching_indices(lines, query).len() ==> 0 <= #[trigger] matching_indices(
                lines,
                query,
            )[k] < lines.len(),
        forall|j: int, k: int|
            0 <= j < k < matching_indices(lines, query).len() ==> matching_indices(lines, query)[j]
                < matching_indices(lines, query)[k],
    decreases lines.len(),
{
    if lines.len() > 0 {
        lemma_matching_indices(lines.drop_last(), query);
    }
}

/// Whether a log line contains the query, ignoring ASCII case.
pub fn line_matches(line: &str, query: &str) -> (result: bool)
    ensures
        result == line_matches_query(line@, query@),
{
    if query.is_empty() {
        return true;
    }
    let line = lower_ascii(chars_of(line).as_slice());
    let query = lower_ascii(chars_of(query).as_slice());
    contains(line.as_slice(), query.as_slice())
}

/// Plain texts of the visible log lines under the current search and filter.
pub fn visible_lines(raw: &[u8], query: &str, filtered: bool) -> (result: Vec<String>)
    ensures
        result.deep_view() == visible_text(raw@, query@, filtered),
        result@.len() <= isize::MAX + 1,
{
    proof {
        lemma_parse_length(raw@);
        lemma_visible_length(parse_log(raw@), query@, filtered);
    }
    let lines = parse(raw);
    let mut result: Vec<String> = Vec::new();
    let mut index: usize = 0;
    while index < lines.len()
        invariant
            index <= lines@.len(),
            lines.deep_view() == parse_log(raw@),
            result.deep_view() == visible_from(lines.deep_view().take(index as int), query@, filtered),
        decreases lines@.len() - index,
    {
        let ghost taken = lines.deep_view().take(index as int + 1);
        assert(taken.drop_last() =~= lines.deep_view().take(index as int));
        assert(taken.last() == lines.deep_view()[index as int]);
        let keep = !filtered || line_matches(lines[index].plain.as_str(), query);
        if keep {
            let ghost before = result.deep_view();
            result.push(lines[index].plain.clone());
            assert(result.deep_view() =~= before.push(lines@[index as int].plain@));
        }
        index += 1;
    }
    assert(lines.deep_view().take(lines@.len() as int) =~= lines.deep_view());
    assert(result@.len() == result.deep_view().len());
    result
}

/// Indices of the visible lines that match a non-empty query.
pub fn match_lines(raw: &[u8], query: &str, filtered: bool) -> (result: Vec<usize>)
    ensures
        result@.map_values(|index: usize| index as int) == match_indices(raw@, query@, filtered),
{
    let mut result: Vec<usize> = Vec::new();
    if query.is_empty() {
        assert(result@.map_values(|index: usize| index as int) =~= Seq::<int>::empty());
        return result;
    }
    let lines = visible_lines(raw, query, filtered);
    let mut index: usize = 0;
    while index < lines.len()
        invariant
            index <= lines@.len(),
            lines.deep_view() == visible_text(raw@, query@, filtered),
            result@.map_values(|index: usize| index as int) == matching_indices(
                lines.deep_view().take(index as int),
                query@,
            ),
        decreases lines@.len() - index,
    {
        let ghost taken = lines.deep_view().take(index as int + 1);
        assert(taken.drop_last() =~= lines.deep_view().take(index as int));
        assert(taken.last() == lines@[index as int]@);
        if line_matches(lines[index].as_str(), query) {
            let ghost before = result@;
            result.push(index);
            assert(result@.map_values(|index: usize| index as int) =~= before.map_values(
                |index: usize| index as int,
            ).push(index as int));
        }
        index += 1;
    }
    assert(lines.deep_view().take(lines@.len() as int) =~= lines.deep_view());
    result
}

/// A log line ready for display: its runs and the style of the whole line.
#[derive(Clone, Debug)]
pub struct RenderedLine {
    /// Styled runs of the line.
    pub spans: Vec<StyledSpan>,
    /// Style applied over the whole line.
    pub style: LogStyle,
}

impl DeepView for RenderedLine {
    type V = (Seq<SpanModel>, LogStyle);

    open spec fn deep_view(&self) -> Self::V {
        (self.spans.deep_view(), self.style)
    }
}

/// Lines for display: the kept lines, the active match reversed, other matches underlined.
pub open spec fn render_from(
    lines: Seq<LineModel>,
    query: Seq<char>,
    filtered: bool,
    active: Option<int>,
    plain_mode: bool,
) -> Seq<(Seq<SpanModel>, LogStyle)>
    decreases lines.len(),
{
    if lines.len() == 0 {
        Seq::empty()
    } else {
        let rest = render_from(lines.drop_last(), query, filtered, active, plain_mode);
        let line = lines.last();
        let matches = line_matches_query(line.0, query);
        if filtered && !matches {
            rest
        } else {
            let line_style = if active == Some(rest.len() as int) {
                with_modifier(plain_style(), REVERSED)
            } else if matches && query.len() > 0 {
                with_modifier(plain_style(), UNDERLINED)
            } else {
                plain_style()
            };
            let spans = if plain_mode {
                seq![(line.0, plain_style())]
            } else {
                line.1
            };
            rest.push((spans, line_style))
        }
    }
}

/// Styled lines of a raw log under the current search, filter and active match.
pub fn styled_text(
    raw: &[u8],
    query: &str,
    filtered: bool,
    active_match_line: Option<usize>,
    plain_mode: bool,
) -> (result: Vec<RenderedLine>)
    ensures
        result.deep_view() == render_from(
            parse_log(raw@),
            query@,
            filtered,
            match active_match_line {
                Some(line) => Some(line as int),
                None => None,
            },
            plain_mode,
        ),
{
    let ghost active = match active_match_line {
        Some(line) => Some(line as int),
        None => None::<int>,
    };
    let lines = parse(raw);
    let mut result: Vec<RenderedLine> = Vec::new();
    let mut index: usize = 0;
    assert(result.deep_view() =~= Seq::<(Seq<SpanModel>, LogStyle)>::empty());
    while index < lines.len()
        invariant
            index <= lines@.len(),
            lines.deep_view() == parse_log(raw@),
            active == (match active_match_line {
                Some(line) => Some(line as int),
                None => None,
            }),
            result.deep_view() == render_from(
                lines.deep_view().take(index as int),
                query@,
                filtered,
                active,
                plain_mode,
            ),
        decreases lines@.len() - index,
    {
        let ghost taken = lines.deep_view().take(index as int + 1);
        assert(taken.drop_last() =~= lines.deep_view().take(index as int));
        assert(taken.last() == lines.deep_view()[index as int]);
        let matches = line_matches(lines[index].plain.as_str(), query);
        if !filtered || matches {
            let visible_index = result.len();
            let is_active = match active_match_line {
                Some(line) => line == visible_index,
                None => false,
            };
            let line_style = if is_active {
                LogStyle::plain().add(REVERSED)
            } else if matches && !query.is_empty() {
                LogStyle::plain().add(UNDERLINED)
            } else {
                LogStyle::plain()
            };
            let spans = if plain_mode {
                let mut single: Vec<StyledSpan> = Vec::new();
                single.push(StyledSpan { content: lines[index].plain.clone(), style: LogStyle::plain() });
                assert(single.deep_view() =~= seq![(lines@[index as int].plain@, plain_style())]);
                single
            } else {
                copy_spans(&lines[index].spans)
            };
            let ghost before = result.deep_view();
            let ghost span_model = spans.deep_view();
            result.push(RenderedLine { spans, style: line_style });
            assert(result.deep_view() =~= before.push((span_model, line_style)));
        }
        index += 1;
    }
    assert(lines.deep_view().take(lines@.len() as int) =~= lines.deep_view());
    result
}

/// With the filter on, every visible line matches the search; with it off, every line is
/// visible.
pub proof fn lemma_filter_shows_matches(lines: Seq<LineModel>, query: Seq<char>)
    ensures
        forall|index: int|
            0 <= index < visible_from(lines, query, true).len() ==> line_matches_query(
                #[trigger] visible_from(lines, query, true)[index],
                query,
            ),
        visible_from(lines, query, false).len() == lines.len(),
    decreases lines.len(),
{
    if lines.len() > 0 {
        lemma_filter_shows_matches(lines.drop_last(), query);
        let rest = visible_from(lines.drop_last(), query, true);
        assert forall|index: int|
            0 <= index < visible_from(lines, query, true).len() implies line_matches_query(
                #[trigger] visible_from(lines, query, true)[index],
                query,
            ) by {
            if index < rest.len() {
                assert(visible_from(lines, query, true)[index] == rest[index]);
            }
        }
    }
}

/// Law: the SGR codes 30 to 37 set the foreground to black, red, green, yellow, blue,
/// magenta, cyan and gray in that order, 90 to 97 to their bright forms in the same order, and
/// 40 to 47 and 100 to 107 set the background the same way; nothing else of the style changes
/// and no following parameter is used.
pub proof fn lemma_basic_colors(style: LogStyle, values: Seq<u16>, index: int, offset: int)
    requires
        0 <= index < values.len(),
        0 <= offset < 8,
    ensures
        ({
            let standard = seq![
                LogColor::Black,
                LogColor::Red,
                LogColor::Green,
                LogColor::Yellow,
                LogColor::Blue,
                LogColor::Magenta,
                LogColor::Cyan,
                LogColor::Gray,
            ];
            let bright = seq![
                LogColor::DarkGray,
                LogColor::LightRed,
                LogColor::LightGreen,
                LogColor::LightYellow,
                LogColor::LightBlue,
                LogColor::LightMagenta,
                LogColor::LightCyan,
                LogColor::White,
            ];
            &&& values[index] == 30 + offset ==> sgr_step(style, values, index) == (
                LogStyle { fg: Some(standard[offset]), ..style },
                0int,
            )
            &&& values[index] == 90 + offset ==> sgr_step(style, values, index) == (
                LogStyle { fg: Some(bright[offset]), ..style },
                0int,
            )
            &&& values[index] == 40 + offset ==> sgr_step(style, values, index) == (
                LogStyle { bg: Some(standard[offset]), ..style },
                0int,
            )
            &&& values[index] == 100 + offset ==> sgr_step(style, values, index) == (
                LogStyle { bg: Some(bright[offset]), ..style },
                0int,
            )
        }),
{
}

/// Whether `query` occurs in `line` from `start`, letters compared without ASCII case.
pub open spec fn occurs_ignoring_case(line: Seq<char>, query: Seq<char>, start: int) -> bool {
    &&& 0 <= start
    &&& start + query.len() <= line.len()
    &&& forall|offset: int|
        0 <= offset < query.len() ==> crate::text::ascii_lower(#[trigger] line[start + offset])
            == crate::text::ascii_lower(query[offset])
}

/// Lemma: an occurrence without case is one in the lowercase texts.
proof fn lemma_occurs_ignoring_case(line: Seq<char>, query: Seq<char>, start: int)
    ensures
        occurs_ignoring_case(line, query, start) == crate::text::occurs_at(
            crate::text::ascii_lower_text(line),
            crate::text::ascii_lower_text(query),
            start,
        ),
{
    let lowered = crate::text::ascii_lower_text(line);
    let pattern = crate::text::ascii_lower_text(query);
    if 0 <= start && start + query.len() <= line.len() {
        if occurs_ignoring_case(line, query, start) {
            assert forall|offset: int| 0 <= offset < query.len() implies lowered.subrange(
                start,
                start + query.len(),
            )[offset] == pattern[offset] by {
                assert(crate::text::ascii_lower(line[start + offset]) == crate::text::ascii_lower(query[offset]));
            }
            assert(lowered.subrange(start, start + query.len()) =~= pattern);
        }
        if crate::text::occurs_at(lowered, pattern, start) {
            assert forall|offset: int| 0 <= offset < query.len() implies crate::text::ascii_lower(
                #[trigger] line[start + offset],
            ) == crate::text::ascii_lower(query[offset]) by {
                assert(lowered.subrange(start, start + query.len())[offset] == pattern[offset]);
            }
        }
    }
}

/// Lemma: a line matches a non-empty query exactly when the query occurs in it without case.
proof fn lemma_line_matches(line: Seq<char>, query: Seq<char>)
    requires
        query.len() > 0,
    ensures
        line_matches_query(line, query) == exists|start: int| #[trigger] occurs_ignoring_case(line, query, start),
{
    let lowered = crate::text::ascii_lower_text(line);
    let pattern = crate::text::ascii_lower_text(query);
    if line_matches_query(line, query) {
        let start = choose|start: int| crate::text::occurs_at(lowered, pattern, start);
        lemma_occurs_ignoring_case(line, query, start);
    }
    if exists|start: int| #[trigger] occurs_ignoring_case(line, query, start) {
        let start = choose|start: int| #[trigger] occurs_ignoring_case(line, query, start);
        lemma_occurs_ignoring_case(line, query, start);
    }
}

/// Law: the indices matching a non-empty query are exactly the positions of the lines in
/// which it occurs, letters compared without ASCII case, in increasing order.
pub proof fn lemma_matching_exactly(lines: Seq<Seq<char>>, query: Seq<char>)
    requires
        query.len() > 0,
    ensures
        forall|position: int|
            matching_indices(lines, query).contains(position) <==> (0 <= position < lines.len()
                && exists|start: int| #[trigger] occurs_ignoring_case(lines[position], query, start)),
        forall|j: int, k: int|
            0 <= j < k < matching_indices(lines, query).len() ==> matching_indices(lines, query)[j]
                < matching_indices(lines, query)[k],
    decreases lines.len(),
{
    lemma_matching_indices(lines, query);
    if lines.len() > 0 {
        let front = lines.drop_last();
        lemma_matching_exactly(front, query);
        lemma_matching_indices(front, query);
        let rest = matching_indices(front, query);
        let all = matching_indices(lines, query);
        let last = lines.len() - 1;
        lemma_line_matches(lines.last(), query);
        assert(lines[last] == lines.last());
        assert forall|position: int|
            all.contains(position) <==> (0 <= position < lines.len() && exists|start: int|
                #[trigger] occurs_ignoring_case(lines[position], query, start)) by {
            if 0 <= position < last {
                assert(lines[position] == front[position]);
            }
            if all.contains(position) {
                let found = choose|k: int| 0 <= k < all.len() && all[k] == position;
                if found < rest.len() {
                    assert(rest[found] == position);
                    assert(rest.contains(position));
                }
            }
            if rest.contains(position) {
                let found = choose|k: int| 0 <= k < rest.len() && rest[k] == position;
                assert(all[found] == position);
            }
            if position == last && line_matches_query(lines.last(), query) {
                assert(all[all.len() - 1] == position);
            }
        }
    }
}

/// Law: with a non-empty query, the matches of a log are exactly the positions of the visible
/// lines in which the query occurs, letters compared without ASCII case, in increasing order.
pub proof fn lemma_match_lines_exactly(raw: Seq<u8>, query: Seq<char>, filtered: bool)
    requires
        query.len() > 0,
    ensures
        forall|position: int|
            match_indices(raw, query, filtered).contains(position) <==> (0 <= position < visible_text(
                raw,
                query,
                filtered,
            ).len() && exists|start: int|
                #[trigger] occurs_ignoring_case(visible_text(raw, query, filtered)[position], query, start)),
        forall|j: int, k: int|
            0 <= j < k < match_indices(raw, query, filtered).len() ==> match_indices(raw, query, filtered)[j]
                < match_indices(raw, query, filtered)[k],
{
    lemma_matching_exactly(visible_text(raw, query, filtered), query);
}

/// Law: SGR 0 resets the style, 1, 2, 3, 4, 5, 7 and 9 switch on bold, dim, italic,
/// underline, slow blink, reverse and crossed-out, 22 switches off bold and dim, 39 and 49 reset
/// the foreground and background, and 38 or 48 followed by `5;n` or `2;r;g;b` set an indexed
/// or RGB color using the two or four parameters that follow.
pub proof fn lemma_sgr_codes(style: LogStyle, values: Seq<u16>, index: int)
    requires
        0 <= index < values.len(),
    ensures
        values[index] == 0 ==> sgr_step(style, values, index) == (
            LogStyle { fg: None, bg: None, add_modifier: 0, sub_modifier: 0 },
            0int,
        ),
        values[index] == 1 ==> sgr_step(style, values, index).0 == (LogStyle {
            add_modifier: style.add_modifier | 1,
            sub_modifier: style.sub_modifier & !1u16,
            ..style
        }),
        values[index] == 2 ==> sgr_step(style, values, index).0.add_modifier == style.add_modifier | 2,
        values[index] == 3 ==> sgr_step(style, values, index).0.add_modifier == style.add_modifier | 4,
        values[index] == 4 ==> sgr_step(style, values, index).0.add_modifier == style.add_modifier | 8,
        values[index] == 5 ==> sgr_step(style, values, index).0.add_modifier == style.add_modifier | 16,
        values[index] == 7 ==> sgr_step(style, values, index).0.add_modifier == style.add_modifier | 64,
        values[index] == 9 ==> sgr_step(style, values, index).0.add_modifier == style.add_modifier | 256,
        values[index] == 22 ==> sgr_step(style, values, index).0.sub_modifier == style.sub_modifier | 3,
        values[index] == 39 ==> sgr_step(style, values, index) == (
            LogStyle { fg: Some(LogColor::Reset), ..style },
            0int,
        ),
        values[index] == 49 ==> sgr_step(style, values, index) == (
            LogStyle { bg: Some(LogColor::Reset), ..style },
            0int,
        ),
        values[index] == 38 && index + 2 < values.len() && values[index + 1] == 5 && values[index + 2]
            <= 255 ==> sgr_step(style, values, index) == (
            LogStyle { fg: Some(LogColor::Indexed(values[index + 2] as u8)), ..style },
            2int,
        ),
        values[index] == 48 && index + 4 < values.len() && values[index + 1] == 2 && values[index + 2]
            <= 255 && values[index + 3] <= 255 && values[index + 4] <= 255 ==> sgr_step(style, values, index)
            == (
            LogStyle {
                bg: Some(
                    LogColor::Rgb(
                        values[index + 2] as u8,
                        values[index + 3] as u8,
                        values[index + 4] as u8,
                    ),
                ),
                ..style
            },
            4int,
        ),
{
    let tail = values.subrange(index + 1, values.len() as int);
    if index + 2 < values.len() {
        assert(tail[0] == values[index + 1] && tail[1] == values[index + 2]);
    }
    if index + 4 < values.len() {
        assert(tail[2] == values[index + 3] && tail[3] == values[index + 4]);
    }
    assert(1u16 | 2u16 == 3u16) by (bit_vector);
}

/// Lemma: a run of characters that are not controls joins the current line and segment.
proof fn lemma_plain_run(
    characters: Seq<char>,
    index: int,
    end: int,
    lines: Seq<LineModel>,
    line: LineModel,
    segment: Seq<char>,
    style: LogStyle,
    ends_with_newline: bool,
)
    requires
        0 <= index <= end <= characters.len(),
        forall|position: int| index <= position < end ==> !is_control_char(#[trigger] characters[position]),
    ensures
        parse_from(characters, index, lines, line, segment, style, ends_with_newline) == parse_from(
            characters,
            end,
            lines,
            (line.0 + characters.subrange(index, end), line.1),
            segment + characters.subrange(index, end),
            style,
            ends_with_newline,
        ),
    decreases end - index,
{
    if index == end {
        assert(line.0 + characters.subrange(index, end) =~= line.0);
        assert(segment + characters.subrange(index, end) =~= segment);
        assert((line.0 + characters.subrange(index, end), line.1) == line);
    } else {
        let character = characters[index];
        assert(!is_control_char(character));
        assert(character != '\n' && character != '\r' && character != '\u{1b}');
        lemma_plain_run(
            characters,
            index + 1,
            end,
            lines,
            (line.0.push(character), line.1),
            segment.push(character),
            style,
            ends_with_newline,
        );
        assert(line.0.push(character) + characters.subrange(index + 1, end) =~= line.0 + characters.subrange(
            index,
            end,
        ));
        assert(segment.push(character) + characters.subrange(index + 1, end) =~= segment + characters.subrange(
            index,
            end,
        ));
    }
}

/// Law: a log line that sets one of the eight standard foreground colors with `ESC [ 3 d m`
/// (`d` from 0 to 7) and then holds text without control characters parses as one line of
/// that text in one run of that color: black, red, green, yellow, blue, magenta, cyan or gray.
pub proof fn lemma_colored_line(digit: char, text: Seq<char>)
    requires
        '0' <= digit <= '7',
        text.len() > 0,
        forall|position: int| 0 <= position < text.len() ==> !is_control_char(#[trigger] text[position]),
    ensures
        ({
            let standard = seq![
                LogColor::Black,
                LogColor::Red,
                LogColor::Green,
                LogColor::Yellow,
                LogColor::Blue,
                LogColor::Magenta,
                LogColor::Cyan,
                LogColor::Gray,
            ];
            let characters = seq!['\u{1b}', '[', '3', digit, 'm'] + text + seq!['\n'];
            let color = LogStyle {
                fg: Some(standard[digit as int - '0' as int]),
                bg: None,
                add_modifier: 0,
                sub_modifier: 0,
            };
            parse_from(characters, 0, Seq::empty(), (Seq::empty(), Seq::empty()), Seq::empty(), plain_style(), true)
                == seq![(text, seq![(text, color)])]
        }),
{
    let characters = seq!['\u{1b}', '[', '3', digit, 'm'] + text + seq!['\n'];
    let length = characters.len() as int;
    let end_text: int = 5 + text.len() as int;
    assert(characters[0] == '\u{1b}');
    assert(characters[1] == '[');
    assert(characters[2] == '3');
    assert(characters[3] == digit);
    assert(characters[4] == 'm');
    assert(characters[end_text] == '\n');
    assert(csi_end(characters, 4) == 4);
    assert(csi_end(characters, 3) == 4);
    assert(csi_end(characters, 2) == 4);
    let parameters = characters.subrange(2, 4);
    assert(parameters =~= seq!['3', digit]);
    assert(parameters.drop_last() =~= seq!['3']);
    assert(seq!['3'].drop_last() =~= Seq::<char>::empty());
    assert(split_text(Seq::<char>::empty(), ';') == seq![Seq::<char>::empty()]);
    assert(seq!['3'].last() == '3');
    assert(Seq::<char>::empty().push('3') =~= seq!['3']);
    assert(split_text(seq!['3'], ';') =~= seq![seq!['3']]);
    assert(parameters.last() == digit);
    assert(seq!['3'].push(digit) =~= seq!['3', digit]);
    assert(split_text(parameters, ';') == split_text(seq!['3'], ';').update(0, seq!['3'].push(digit)));
    assert(split_text(parameters, ';') =~= seq![seq!['3', digit]]);
    let value = 30 + (digit as int - '0' as int);
    assert(unsigned_digits(seq!['3', digit]) == seq!['3', digit]);
    assert(seq!['3', digit].drop_last() =~= seq!['3']);
    assert(crate::number::decimal(seq!['3']) == 3) by {
        assert(seq!['3'].drop_last() =~= Seq::<char>::empty());
        assert(crate::number::decimal(Seq::<char>::empty()) == 0);
        assert(crate::number::digit_value('3') == 3);
    }
    assert(crate::number::decimal(seq!['3', digit]) == value);
    assert(parse_unsigned(seq!['3', digit], 65535) == Some(value));
    assert(sgr_values(parameters) =~= seq![value as u16]);
    let standard = seq![
        LogColor::Black,
        LogColor::Red,
        LogColor::Green,
        LogColor::Yellow,
        LogColor::Blue,
        LogColor::Magenta,
        LogColor::Cyan,
        LogColor::Gray,
    ];
    let color = LogStyle { fg: Some(standard[digit as int - '0' as int]), bg: None, add_modifier: 0, sub_modifier: 0 };
    assert((value as u16) as int == value);
    assert(seq![value as u16][0] == 30 + (digit as int - '0' as int));
    lemma_basic_colors(plain_style(), seq![value as u16], 0, digit as int - '0' as int);
    assert(sgr_step(plain_style(), seq![value as u16], 0) == (color, 0int));
    assert(sgr_apply(color, seq![value as u16], 1) == color);
    assert(sgr_apply(plain_style(), seq![value as u16], 0) == color);
    assert(escape(characters, 0, plain_style()) == (5int, color));
    assert forall|position: int| 5 <= position < end_text implies !is_control_char(#[trigger] characters[position]) by {
        assert(characters[position] == text[position - 5]);
    }
    lemma_plain_run(
        characters,
        5,
        end_text,
        Seq::empty(),
        (Seq::empty(), Seq::empty()),
        Seq::empty(),
        color,
        true,
    );
    assert(characters.subrange(5, end_text) =~= text);
    assert(Seq::<char>::empty() + text =~= text);
    let empty_line: LineModel = (Seq::empty(), Seq::empty());
    assert(flush(empty_line, Seq::empty(), plain_style()) == empty_line);
    assert(parse_from(characters, 0, Seq::empty(), empty_line, Seq::empty(), plain_style(), true) == parse_from(
        characters,
        5,
        Seq::empty(),
        empty_line,
        Seq::empty(),
        color,
        true,
    ));
    let filled: LineModel = (text, Seq::empty());
    assert((Seq::<char>::empty() + characters.subrange(5, end_text), Seq::<SpanModel>::empty()) == filled);
    let done = seq![(text, seq![(text, color)])];
    assert(flush(filled, text, color) == (text, seq![(text, color)]));
    assert(Seq::<LineModel>::empty().push(flush(filled, text, color)) =~= done);
    assert(end_text + 1 == length);
    assert(parse_from(characters, end_text + 1, done, empty_line, Seq::empty(), color, true) == done);
    assert(parse_from(characters, end_text, Seq::empty(), filled, text, color, true) == done);
}

/// Law: without the filter every line is visible, in order; with it and a non-empty query,
/// the visible texts are exactly the texts of the lines in which the query occurs, letters
/// compared without ASCII case.
pub proof fn lemma_filter_exactly(lines: Seq<LineModel>, query: Seq<char>)
    ensures
        visible_from(lines, query, false) == lines.map_values(|line: LineModel| line.0),
        query.len() > 0 ==> forall|text: Seq<char>|
            visible_from(lines, query, true).contains(text) <==> (exists|index: int|
                0 <= index < lines.len() && #[trigger] lines[index].0 == text) && exists|start: int|
                #[trigger] occurs_ignoring_case(text, query, start),
    decreases lines.len(),
{
    if lines.len() == 0 {
        assert(lines.map_values(|line: LineModel| line.0) =~= Seq::<Seq<char>>::empty());
    } else {
        let front = lines.drop_last();
        lemma_filter_exactly(front, query);
        assert(lines.map_values(|line: LineModel| line.0) =~= front.map_values(|line: LineModel| line.0).push(
            lines.last().0,
        ));
        if query.len() > 0 {
            let rest = visible_from(front, query, true);
            let all = visible_from(lines, query, true);
            let last = lines.last().0;
            assert(lines[lines.len() - 1] == lines.last());
            lemma_line_matches(last, query);
            assert forall|text: Seq<char>|
                all.contains(text) <==> (exists|index: int| 0 <= index < lines.len() && #[trigger] lines[index].0 == text)
                    && exists|start: int| #[trigger] occurs_ignoring_case(text, query, start) by {
                lemma_line_matches(text, query);
                if all.contains(text) {
                    let found = choose|k: int| 0 <= k < all.len() && all[k] == text;
                    if found < rest.len() {
                        assert(rest[found] == text);
                        assert(rest.contains(text));
                        let index = choose|index: int| 0 <= index < front.len() && #[trigger] front[index].0 == text;
                        assert(lines[index] == front[index]);
                    } else {
                        assert(text == last);
                    }
                }
                if exists|index: int| 0 <= index < lines.len() && #[trigger] lines[index].0 == text {
                    let index = choose|index: int| 0 <= index < lines.len() && #[trigger] lines[index].0 == text;
                    if exists|start: int| #[trigger] occurs_ignoring_case(text, query, start) {
                        if index < front.len() {
                            assert(front[index] == lines[index]);
                            assert(rest.contains(text));
                            let found = choose|k: int| 0 <= k < rest.len() && rest[k] == text;
                            assert(all[found] == text);
                        } else {
                            assert(all[all.len() - 1] == text);
                        }
                    }
                }
            }
        }
    }
}

} // verus!
