//! Width measurement, clipping and horizontal viewport state for single-line texts.

use std::time::Duration;

use vstd::prelude::*;

use crate::text::{chars_of, display_width, push_char, width};

verus! {

/// Constant reading speed of automatic scrolling, in characters per second.
pub const AUTO_SCROLL_CHARS_PER_SECOND: u128 = 4;

/// Nanoseconds that one automatically scrolled character takes.
pub const NANOS_PER_CHARACTER: u128 = 250_000_000;

/// Nanoseconds during which a manual move keeps the highlighted text still.
pub const MANUAL_SCROLL_FREEZE_NANOS: u128 = 10_000_000_000;

/// Whole nanoseconds a duration holds.
pub uninterp spec fn duration_nanos(duration: Duration) -> nat;

/// Nanoseconds of a duration.
///
/// Calls `Duration::as_nanos`, which std documents as the total number of nanoseconds.
#[verifier::external_body]
pub(crate) fn nanos_of(duration: Duration) -> (result: u128)
    ensures
        result == duration_nanos(duration),
{
    duration.as_nanos()
}

/// A duration of the given nanoseconds.
///
/// Calls `Duration::from_nanos`, which std documents as the duration of that many nanoseconds.
#[verifier::external_body]
pub(crate) fn duration_from_nanos(nanos: u64) -> (result: Duration)
    ensures
        duration_nanos(result) == nanos,
{
    Duration::from_nanos(nanos)
}

/// Saturating sum in `u128`.
pub open spec fn sat_add_u128(left: int, right: int) -> int {
    if left + right > u128::MAX {
        u128::MAX as int
    } else {
        left + right
    }
}

/// Saturating sum in `usize`.
pub open spec fn sat_add(left: int, right: int) -> int {
    if left + right > usize::MAX {
        usize::MAX as int
    } else {
        left + right
    }
}

/// Saturating difference at zero.
pub open spec fn sat_sub(left: int, right: int) -> int {
    if left < right {
        0
    } else {
        left - right
    }
}

/// The smaller of two integers.
pub open spec fn min_int(left: int, right: int) -> int {
    if left <= right {
        left
    } else {
        right
    }
}

/// The larger of two integers.
pub open spec fn max_int(left: int, right: int) -> int {
    if left >= right {
        left
    } else {
        right
    }
}

/// Characters that `elapsed` nanoseconds add to a pending `remainder`, and the new remainder.
pub open spec fn scroll_steps(remainder: int, elapsed: int) -> (int, int) {
    let total = sat_add_u128(remainder, elapsed);
    (min_int(total / NANOS_PER_CHARACTER as int, usize::MAX as int), total % NANOS_PER_CHARACTER as int)
}

/// On/off switch of automatic horizontal scrolling.
#[derive(Clone, Copy, Debug, PartialEq, Eq, Structural)]
pub enum AutoScrollMode {
    /// Horizontal moves happen only by hand.
    Off,
    /// Texts move at a constant reading speed.
    On,
}

impl AutoScrollMode {
    /// Whether automatic scrolling is on.
    pub fn enabled(self) -> (result: bool)
        ensures
            result == (self == AutoScrollMode::On),
    {
        match self {
            AutoScrollMode::On => true,
            AutoScrollMode::Off => false,
        }
    }

    /// Switches automatic scrolling on or off.
    pub fn toggle(&mut self)
        ensures
            *final(self) == (if *old(self) == AutoScrollMode::On {
                AutoScrollMode::Off
            } else {
                AutoScrollMode::On
            }),
    {
        *self = match *self {
            AutoScrollMode::Off => AutoScrollMode::On,
            AutoScrollMode::On => AutoScrollMode::Off,
        };
    }
}

/// Abstract state of a horizontal viewport.
pub ghost struct ScrollView {
    /// Offset of the highlighted text after manual moves.
    pub manual: int,
    /// Whether automatic scrolling is on.
    pub auto_on: bool,
    /// Offset shared by all texts in automatic mode.
    pub automatic: int,
    /// Nanoseconds not yet turned into an automatic step.
    pub remainder: int,
    /// Nanoseconds left of the manual freeze.
    pub freeze: int,
}

impl ScrollView {
    /// The same state with all positions and timers back at zero.
    pub open spec fn reset(self) -> ScrollView {
        ScrollView { manual: 0, automatic: 0, remainder: 0, freeze: 0, ..self }
    }

    /// Whether a manual move still freezes the highlighted text.
    pub open spec fn frozen(self) -> bool {
        self.freeze != 0
    }

    /// Offset a text uses: the automatic one unless a manual move froze the highlighted text.
    pub open spec fn offset_for(self, selected: bool) -> int {
        if self.auto_on && (!selected || !self.frozen()) {
            self.automatic
        } else if selected {
            self.manual
        } else {
            0
        }
    }

    /// State after one manual move bounded by `maximum`.
    pub open spec fn moved(self, forward: bool, maximum: int) -> ScrollView {
        let base = if self.auto_on && !self.frozen() {
            min_int(self.automatic, maximum)
        } else {
            self.manual
        };
        ScrollView {
            manual: if forward {
                min_int(sat_add(base, 1), maximum)
            } else {
                sat_sub(base, 1)
            },
            freeze: MANUAL_SCROLL_FREEZE_NANOS as int,
            ..self
        }
    }

    /// State and redraw flag after `elapsed` nanoseconds of automatic scrolling within `maximum`.
    pub open spec fn advanced(self, elapsed: int, maximum: int) -> (ScrollView, bool) {
        let thawed = ScrollView { freeze: sat_sub(self.freeze, elapsed), ..self };
        if !self.auto_on {
            (thawed, false)
        } else {
            let freeze_ended = self.frozen() && !thawed.frozen();
            let (steps, remainder) = scroll_steps(self.remainder, elapsed);
            let stepped = ScrollView { remainder, ..thawed };
            if steps == 0 {
                (stepped, freeze_ended)
            } else if maximum == 0 {
                (stepped, false)
            } else {
                (
                    ScrollView {
                        automatic: sat_add(self.automatic, steps) % sat_add(maximum, 1),
                        ..stepped
                    },
                    true,
                )
            }
        }
    }
}

/// Manual and automatic horizontal scrolling shared by every page.
#[derive(Clone, Copy, Debug, PartialEq, Eq, Structural)]
pub struct HorizontalScroll {
    manual_offset: usize,
    auto_mode: AutoScrollMode,
    auto_offset: usize,
    auto_remainder: u128,
    manual_freeze: u128,
}

impl View for HorizontalScroll {
    type V = ScrollView;

    closed spec fn view(&self) -> ScrollView {
        ScrollView {
            manual: self.manual_offset as int,
            auto_on: self.auto_mode == AutoScrollMode::On,
            automatic: self.auto_offset as int,
            remainder: self.auto_remainder as int,
            freeze: self.manual_freeze as int,
        }
    }
}

impl HorizontalScroll {
    /// Lemma: every scroll state's view fits its machine types, and equal views mean equal states.
    pub proof fn lemma_view(self, other: HorizontalScroll)
        ensures
            self@.manual >= 0,
            self@.automatic >= 0,
            self@.manual <= usize::MAX,
            self@.automatic <= usize::MAX,
            self@ == other@ ==> self == other,
    {
    }

    /// Manual off, automatic off, everything at zero.
    pub fn new() -> (result: Self)
        ensures
            result@ == (ScrollView { manual: 0, auto_on: false, automatic: 0, remainder: 0, freeze: 0 }),
    {
        HorizontalScroll {
            manual_offset: 0,
            auto_mode: AutoScrollMode::Off,
            auto_offset: 0,
            auto_remainder: 0,
            manual_freeze: 0,
        }
    }

    /// Offset after manual moves.
    pub fn manual_offset(self) -> (result: usize)
        ensures
            result == self@.manual,
    {
        self.manual_offset
    }

    /// Whether automatic scrolling is on.
    pub fn auto_enabled(self) -> (result: bool)
        ensures
            result == self@.auto_on,
    {
        self.auto_mode.enabled()
    }

    /// Whether the highlighted text is frozen after a manual move.
    pub fn manual_frozen(self) -> (result: bool)
        ensures
            result == self@.frozen(),
    {
        self.manual_freeze != 0
    }

    /// Offset a text should use in manual or automatic mode.
    pub fn offset(self, selected: bool) -> (result: usize)
        ensures
            result == self@.offset_for(selected),
    {
        if self.auto_enabled() && (!selected || !self.manual_frozen()) {
            self.auto_offset
        } else if selected {
            self.manual_offset
        } else {
            0
        }
    }

    /// Offset of texts that are not highlighted: the automatic one, or zero.
    pub fn automatic_offset(self) -> (result: usize)
        ensures
            result == (if self@.auto_on {
                self@.automatic
            } else {
                0
            }),
    {
        if self.auto_enabled() {
            self.auto_offset
        } else {
            0
        }
    }

    /// Moves the highlighted text by one character and freezes it for ten seconds.
    pub fn scroll_manual(&mut self, forward: bool, maximum: usize)
        ensures
            final(self)@ == old(self)@.moved(forward, maximum as int),
    {
        if self.auto_enabled() && !self.manual_frozen() {
            self.manual_offset = if self.auto_offset < maximum {
                self.auto_offset
            } else {
                maximum
            };
        }
        self.manual_offset = if forward {
            let next = self.manual_offset.saturating_add(1);
            if next < maximum {
                next
            } else {
                maximum
            }
        } else {
            self.manual_offset.saturating_sub(1)
        };
        self.manual_freeze = MANUAL_SCROLL_FREEZE_NANOS;
    }

    /// Advances automatic scrolling by real elapsed time; returns whether a redraw is due.
    pub fn advance(&mut self, elapsed: Duration, maximum: usize) -> (result: bool)
        ensures
            (final(self)@, result) == old(self)@.advanced(
                duration_nanos(elapsed) as int,
                maximum as int,
            ),
    {
        let elapsed = nanos_of(elapsed);
        let was_frozen = self.manual_frozen();
        self.manual_freeze = self.manual_freeze.saturating_sub(elapsed);
        if !self.auto_enabled() {
            return false;
        }
        let freeze_ended = was_frozen && !self.manual_frozen();
        let steps = steps_from_nanos(&mut self.auto_remainder, elapsed);
        if steps == 0 {
            return freeze_ended;
        }
        if maximum == 0 {
            return false;
        }
        self.auto_offset = self.auto_offset.saturating_add(steps) % maximum.saturating_add(1);
        true
    }

    /// Switches automatic mode and starts again from the beginning of the texts.
    pub fn toggle_auto(&mut self)
        ensures
            final(self)@ == (ScrollView { auto_on: !old(self)@.auto_on, ..old(self)@.reset() }),
    {
        self.auto_mode.toggle();
        self.reset_position();
    }

    /// Puts positions and timers back at zero and keeps the automatic switch.
    pub fn reset_position(&mut self)
        ensures
            final(self)@ == old(self)@.reset(),
    {
        self.manual_offset = 0;
        self.auto_offset = 0;
        self.auto_remainder = 0;
        self.manual_freeze = 0;
    }
}

/// Characters to scroll for `elapsed` nanoseconds on top of the pending `remainder`.
pub fn steps_from_nanos(remainder: &mut u128, elapsed: u128) -> (result: usize)
    ensures
        (result as int, *final(remainder) as int) == scroll_steps(*old(remainder) as int, elapsed as int),
        *final(remainder) < NANOS_PER_CHARACTER,
{
    let total = remainder.saturating_add(elapsed);
    let steps = total / NANOS_PER_CHARACTER;
    *remainder = total % NANOS_PER_CHARACTER;
    if steps > usize::MAX as u128 {
        usize::MAX
    } else {
        steps as usize
    }
}

/// Characters to scroll for a real elapsed time, keeping the time left over below one character.
pub fn auto_scroll_steps(remainder: &mut Duration, elapsed: Duration) -> (result: usize)
    ensures
        (result as int, duration_nanos(*final(remainder)) as int) == scroll_steps(
            duration_nanos(*old(remainder)) as int,
            duration_nanos(elapsed) as int,
        ),
{
    let mut nanos = nanos_of(*remainder);
    let steps = steps_from_nanos(&mut nanos, nanos_of(elapsed));
    *remainder = duration_from_nanos(nanos as u64);
    steps
}


/// Display width of one character.
pub open spec fn char_width(character: char) -> int {
    display_width(seq![character]) as int
}

/// Sum of the display widths of `characters[from..to]`.
pub open spec fn widths(characters: Seq<char>, from: int, to: int) -> int
    decreases to - from,
{
    if to <= from {
        0
    } else {
        widths(characters, from, to - 1) + char_width(characters[to - 1])
    }
}

/// End index and used width after greedily filling `max_width` columns from `end` on,
/// keeping one column free while more characters follow.
pub open spec fn fill(characters: Seq<char>, end: int, used: int, max_width: int) -> (int, int)
    decreases characters.len() - end,
{
    if end < 0 || end >= characters.len() {
        (end, used)
    } else {
        let character_width = char_width(characters[end]);
        let reserved = if end + 1 < characters.len() {
            1int
        } else {
            0
        };
        if sat_add(sat_add(used, character_width), reserved) > max_width {
            (end, used)
        } else {
            fill(characters, end + 1, used + character_width, max_width)
        }
    }
}

/// A one-line text shown from a character offset within `max_width` columns,
/// with an ellipsis on each side where it is cut.
pub open spec fn clip(text: Seq<char>, offset: int, max_width: int) -> Seq<char> {
    if max_width == 0 {
        Seq::empty()
    } else if display_width(text) <= max_width {
        text
    } else {
        let start = min_int(offset, text.len() as int);
        let prefix = if start > 0 {
            1int
        } else {
            0
        };
        let (end, used) = fill(text, start, prefix, max_width);
        (if start > 0 {
            seq!['…']
        } else {
            Seq::empty()
        }) + text.subrange(start, end) + (if end < text.len() && used < max_width {
            seq!['…']
        } else {
            Seq::empty()
        })
    }
}

/// Display width of a text.
pub fn text_width(text: &str) -> (result: usize)
    ensures
        result == display_width(text@),
{
    width(text)
}

/// Display width of one character.
pub fn character_width(character: char) -> (result: usize)
    ensures
        result == char_width(character),
{
    let mut single = String::new();
    push_char(&mut single, character);
    assert(single@ =~= seq![character]);
    width(single.as_str())
}

/// Lemma: the greedy fill never moves backwards and stays within bounds.
proof fn lemma_fill_bounds(characters: Seq<char>, end: int, used: int, max_width: int)
    requires
        0 <= end <= characters.len(),
    ensures
        end <= fill(characters, end, used, max_width).0 <= characters.len(),
        fill(characters, end, used, max_width).1 >= used,
    decreases characters.len() - end,
{
    if end < characters.len() {
        let character_width = char_width(characters[end]);
        let reserved = if end + 1 < characters.len() {
            1int
        } else {
            0
        };
        if sat_add(sat_add(used, character_width), reserved) <= max_width {
            lemma_fill_bounds(characters, end + 1, used + character_width, max_width);
        }
    }
}

/// Shows a one-line text from a character offset and puts an ellipsis where it is cut.
pub fn clipped(text: &str, offset: usize, max_width: usize) -> (result: String)
    ensures
        result@ == clip(text@, offset as int, max_width as int),
{
    if max_width == 0 {
        return String::new();
    }
    let text_width = width(text);
    if text_width <= max_width {
        return text.to_owned();
    }
    assert(max_width < usize::MAX);
    let characters = chars_of(text);
    let start = if offset < characters.len() {
        offset
    } else {
        characters.len()
    };
    let prefix: usize = if start > 0 {
        1
    } else {
        0
    };
    let mut result = String::new();
    if prefix == 1 {
        push_char(&mut result, '…');
    }
    let ghost head = result@;
    let mut used: usize = prefix;
    let mut end: usize = start;
    while end < characters.len()
        invariant
            start <= end <= characters@.len(),
            characters@ == text@,
            used <= max_width < usize::MAX,
            result@ == head + characters@.subrange(start as int, end as int),
            fill(characters@, start as int, prefix as int, max_width as int) == fill(
                characters@,
                end as int,
                used as int,
                max_width as int,
            ),
        ensures
            start <= end <= characters@.len(),
            characters@ == text@,
            used <= max_width < usize::MAX,
            result@ == head + characters@.subrange(start as int, end as int),
            fill(characters@, start as int, prefix as int, max_width as int) == (
                end as int,
                used as int,
            ),
        decreases characters@.len() - end,
    {
        let character = characters[end];
        let character_width = character_width(character);
        let reserved: usize = if end + 1 < characters.len() {
            1
        } else {
            0
        };
        if used.saturating_add(character_width).saturating_add(reserved) > max_width {
            break;
        }
        push_char(&mut result, character);
        used += character_width;
        end += 1;
        assert(characters@.subrange(start as int, end as int) =~= characters@.subrange(
            start as int,
            end - 1,
        ).push(character));
    }
    if end < characters.len() && used < max_width {
        push_char(&mut result, '…');
    }
    result
}


/// Lemma: width sums split at any middle index.
pub proof fn lemma_widths_split(characters: Seq<char>, from: int, middle: int, to: int)
    requires
        from <= middle <= to,
    ensures
        widths(characters, from, to) == widths(characters, from, middle) + widths(
            characters,
            middle,
            to,
        ),
    decreases to - middle,
{
    if to > middle {
        lemma_widths_split(characters, from, middle, to - 1);
    }
}

/// Lemma: width sums of sub-ranges never exceed the sum over the whole text.
pub proof fn lemma_widths_within(characters: Seq<char>, from: int, to: int)
    requires
        0 <= from <= to <= characters.len(),
    ensures
        0 <= widths(characters, from, to) <= widths(characters, 0, characters.len() as int),
{
    lemma_widths_nonnegative(characters, from, to);
    lemma_widths_nonnegative(characters, 0, from);
    lemma_widths_nonnegative(characters, to, characters.len() as int);
    lemma_widths_split(characters, 0, from, to);
    lemma_widths_split(characters, 0, to, characters.len() as int);
}

/// Lemma: width sums are never negative.
pub proof fn lemma_widths_nonnegative(characters: Seq<char>, from: int, to: int)
    ensures
        widths(characters, from, to) >= 0,
    decreases to - from,
{
    if to > from {
        lemma_widths_nonnegative(characters, from, to - 1);
    }
}

/// First start index of an input viewport that keeps the cursor column inside `max_width`.
pub open spec fn view_start(characters: Seq<char>, start: int, cursor: int, max_width: int) -> int
    decreases cursor - start,
{
    if start >= cursor {
        start
    } else if (if start > 0 {
        1int
    } else {
        0
    }) + widths(characters, start, cursor) < max_width {
        start
    } else {
        view_start(characters, start + 1, cursor, max_width)
    }
}

/// Visible text and cursor column of a single-line input.
pub struct InputView {
    /// The text clipped to the terminal width.
    pub text: String,
    /// Display column of the cursor from the start of the visible text.
    pub cursor_x: usize,
}

/// Sum of the display widths of `characters[from..to]`.
fn sum_widths(characters: &Vec<char>, from: usize, to: usize) -> (result: usize)
    requires
        from <= to <= characters@.len(),
        widths(characters@, 0, characters@.len() as int) < usize::MAX,
    ensures
        result == widths(characters@, from as int, to as int),
{
    let mut total: usize = 0;
    let mut index = from;
    while index < to
        invariant
            from <= index <= to <= characters@.len(),
            widths(characters@, 0, characters@.len() as int) < usize::MAX,
            total == widths(characters@, from as int, index as int),
        decreases to - index,
    {
        proof {
            lemma_widths_within(characters@, from as int, index + 1);
        }
        total = total + character_width(characters[index]);
        index += 1;
    }
    total
}

/// Whether `shown` with the cursor at column `cursor_x` is the viewport of a single-line input
/// holding `text` with the cursor at character `cursor`, `max_width` columns wide.
pub open spec fn input_shown(
    text: Seq<char>,
    cursor: int,
    max_width: int,
    shown: Seq<char>,
    cursor_x: int,
) -> bool {
    if max_width == 0 {
        shown == Seq::<char>::empty() && cursor_x == 0
    } else {
        let cursor = min_int(cursor, text.len() as int);
        let start = view_start(text, 0, cursor, max_width);
        let prefix = if start > 0 {
            1int
        } else {
            0
        };
        &&& shown == clip(text, start, max_width)
        &&& cursor_x == min_int(prefix + widths(text, start, cursor), max_width - 1)
    }
}

/// A single-line input viewport that always shows the character cursor.
pub fn input_view(text: &str, cursor: usize, max_width: usize) -> (result: InputView)
    requires
        widths(text@, 0, text@.len() as int) < usize::MAX,
    ensures
        input_shown(text@, cursor as int, max_width as int, result.text@, result.cursor_x as int),
{
    if max_width == 0 {
        return InputView { text: String::new(), cursor_x: 0 };
    }
    let characters = chars_of(text);
    let cursor = if cursor < characters.len() {
        cursor
    } else {
        characters.len()
    };
    let mut start: usize = 0;
    while start < cursor
        invariant
            start <= cursor <= characters@.len(),
            characters@ == text@,
            widths(text@, 0, text@.len() as int) < usize::MAX,
            view_start(characters@, 0, cursor as int, max_width as int) == view_start(
                characters@,
                start as int,
                cursor as int,
                max_width as int,
            ),
        ensures
            start <= cursor,
            view_start(characters@, 0, cursor as int, max_width as int) == start,
        decreases cursor - start,
    {
        let prefix: usize = if start > 0 {
            1
        } else {
            0
        };
        let cursor_width = sum_widths(&characters, start, cursor);
        proof {
            lemma_widths_within(characters@, start as int, cursor as int);
        }
        if prefix + cursor_width < max_width {
            break;
        }
        start += 1;
    }
    let clipped_text = clipped(text, start, max_width);
    let prefix: usize = if start > 0 {
        1
    } else {
        0
    };
    proof {
        lemma_widths_within(characters@, start as int, cursor as int);
    }
    let cursor_x = prefix + sum_widths(&characters, start, cursor);
    let limit = max_width - 1;
    InputView { text: clipped_text, cursor_x: if cursor_x < limit {
        cursor_x
    } else {
        limit
    } }
}

/// The input viewport, when the display widths of the whole text add up to less than
/// `usize::MAX`; nothing otherwise.
pub fn checked_input_view(text: &str, cursor: usize, max_width: usize) -> (result: Option<InputView>)
    ensures
        (widths(text@, 0, text@.len() as int) < usize::MAX) == result is Some,
        result matches Some(view) ==> input_shown(
            text@,
            cursor as int,
            max_width as int,
            view.text@,
            view.cursor_x as int,
        ),
{
    let characters = chars_of(text);
    let mut total: usize = 0;
    let mut index: usize = 0;
    while index < characters.len()
        invariant
            index <= characters@.len(),
            characters@ == text@,
            total == widths(characters@, 0, index as int),
        decreases characters@.len() - index,
    {
        let character_width = character_width(characters[index]);
        match total.checked_add(character_width) {
            Some(sum) => {
                total = sum;
            },
            Option::None => {
                proof {
                    lemma_widths_split(characters@, 0, index + 1, characters@.len() as int);
                    lemma_widths_nonnegative(characters@, index + 1, characters@.len() as int);
                }
                return Option::None;
            },
        }
        index += 1;
    }
    if total == usize::MAX {
        return Option::None;
    }
    Some(input_view(text, cursor, max_width))
}

/// Automatic scrolling keeps a constant speed of four characters per second over real time:
/// splitting an elapsed time in two gives the same characters and remainder as taking it at
/// once, as long as nothing saturates.
pub proof fn lemma_scroll_steps_additive(remainder: int, first: int, second: int)
    requires
        0 <= remainder < NANOS_PER_CHARACTER,
        0 <= first,
        0 <= second,
        remainder + first + second <= u128::MAX,
        (remainder + first + second) / (NANOS_PER_CHARACTER as int) <= usize::MAX,
    ensures
        ({
            let (steps, rest) = scroll_steps(remainder, first);
            let (more, last) = scroll_steps(rest, second);
            let (all, left) = scroll_steps(remainder, first + second);
            steps + more == all && last == left
        }),
{
    let n = NANOS_PER_CHARACTER as int;
    let total = remainder + first;
    let q1 = total / n;
    let r1 = total % n;
    let q2 = (r1 + second) / n;
    let r2 = (r1 + second) % n;
    assert(total == q1 * n + r1 && 0 <= r1 < n) by (nonlinear_arith)
        requires
            n > 0,
            total >= 0,
            q1 == total / n,
            r1 == total % n,
    ;
    assert(r1 + second == q2 * n + r2 && 0 <= r2 < n) by (nonlinear_arith)
        requires
            n > 0,
            r1 + second >= 0,
            q2 == (r1 + second) / n,
            r2 == (r1 + second) % n,
    ;
    assert(q1 >= 0 && q2 >= 0) by (nonlinear_arith)
        requires
            n > 0,
            total >= 0,
            r1 + second >= 0,
            q1 == total / n,
            q2 == (r1 + second) / n,
    ;
    let whole = remainder + first + second;
    assert(whole == (q1 + q2) * n + r2) by (nonlinear_arith)
        requires
            total == q1 * n + r1,
            r1 + second == q2 * n + r2,
            whole == total + second,
    ;
    assert(whole / n == q1 + q2 && whole % n == r2) by (nonlinear_arith)
        requires
            n > 0,
            whole == (q1 + q2) * n + r2,
            0 <= r2 < n,
    ;
    assert(q1 <= whole / n) by (nonlinear_arith)
        requires
            q1 >= 0,
            q2 >= 0,
            whole / n == q1 + q2,
    ;
}

/// A manual move never goes below the start, and a forward move never past `maximum`.
pub proof fn lemma_manual_move_bounded(view: ScrollView, forward: bool, maximum: int)
    requires
        0 <= view.manual,
        0 <= view.automatic,
        0 <= maximum <= usize::MAX,
    ensures
        0 <= view.moved(forward, maximum).manual,
        forward ==> view.moved(forward, maximum).manual <= maximum,
        view.moved(forward, maximum).frozen(),
{
}

/// Automatic scrolling wraps to the start after the end: a moved offset never exceeds
/// `maximum`.
pub proof fn lemma_auto_offset_bounded(view: ScrollView, elapsed: int, maximum: int)
    requires
        0 <= view.automatic <= maximum,
        0 <= maximum < usize::MAX,
        0 <= view.remainder,
        0 <= elapsed,
    ensures
        0 <= view.advanced(elapsed, maximum).0.automatic <= maximum,
{
    let (steps, remainder) = scroll_steps(view.remainder, elapsed);
    if view.auto_on && steps != 0 && maximum != 0 {
        let moved = sat_add(view.automatic, steps);
        let modulus = sat_add(maximum, 1);
        assert(modulus == maximum + 1);
        assert(0 <= moved % modulus < modulus) by (nonlinear_arith)
            requires
                modulus > 0,
        ;
    }
}

/// A text that fits is shown whole, whatever the horizontal offset.
pub proof fn lemma_short_text_unclipped(text: Seq<char>, offset: int, max_width: int)
    requires
        max_width > 0,
        display_width(text) <= max_width,
    ensures
        clip(text, offset, max_width) == text,
{
}

/// The columns a clipped text uses stay within the width, its ellipses included.
pub proof fn lemma_fill_within(characters: Seq<char>, end: int, used: int, max_width: int)
    requires
        0 <= end <= characters.len(),
        0 <= used <= max_width,
        max_width < usize::MAX,
    ensures
        fill(characters, end, used, max_width).1 <= max_width,
    decreases characters.len() - end,
{
    if end < characters.len() {
        let character_width = char_width(characters[end]);
        let reserved = if end + 1 < characters.len() {
            1int
        } else {
            0
        };
        if sat_add(sat_add(used, character_width), reserved) <= max_width {
            lemma_fill_within(characters, end + 1, used + character_width, max_width);
        }
    }
}

} // verus!
