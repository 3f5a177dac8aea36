//! Footer key hints that fit the terminal without being cut.

use vstd::prelude::*;

use crate::text::{append_text, display_width, joined, width};

verus! {

/// Separator between neighbouring key hints.
pub open spec fn hint_separator() -> Seq<char> {
    seq![' ', ' ']
}

/// Index of the first candidate at or after `start` that fits `limit` columns; the number of
/// candidates when none does.
pub open spec fn first_fitting(candidates: Seq<Seq<char>>, limit: int, start: int) -> int
    decreases candidates.len() - start,
{
    if start < 0 || start >= candidates.len() {
        candidates.len() as int
    } else if display_width(candidates[start]) <= limit {
        start
    } else {
        first_fitting(candidates, limit, start + 1)
    }
}

/// The most detailed candidate that fits `width` columns, the last one when none fits, and
/// nothing when there are no candidates.
pub fn adaptive(candidates: &Vec<String>, width_limit: u16) -> (result: String)
    ensures
        ({
            let texts = candidates.deep_view();
            let found = first_fitting(texts, width_limit as int, 0);
            if found < texts.len() {
                result@ == texts[found]
            } else if texts.len() > 0 {
                result@ == texts.last()
            } else {
                result@ == Seq::<char>::empty()
            }
        }),
{
    let ghost texts = candidates.deep_view();
    let limit = width_limit as usize;
    let mut index: usize = 0;
    while index < candidates.len()
        invariant
            index <= texts.len(),
            texts == candidates.deep_view(),
            limit == width_limit,
            first_fitting(texts, limit as int, index as int) == first_fitting(texts, limit as int, 0),
        decreases texts.len() - index,
    {
        if width(candidates[index].as_str()) <= limit {
            return candidates[index].clone();
        }
        index += 1;
    }
    if candidates.len() > 0 {
        candidates[candidates.len() - 1].clone()
    } else {
        String::new()
    }
}

/// Key hints joined with two spaces between neighbours.
pub fn join(hints: &[&str]) -> (result: String)
    ensures
        result@ == joined(hints@.map_values(|hint: &str| hint@), hint_separator()),
{
    let ghost parts = hints@.map_values(|hint: &str| hint@);
    let separator = "  ";
    proof {
        reveal_strlit("  ");
    }
    assert(separator@ == hint_separator());
    let mut result = String::new();
    let mut index: usize = 0;
    while index < hints.len()
        invariant
            index <= hints@.len(),
            parts == hints@.map_values(|hint: &str| hint@),
            separator@ == hint_separator(),
            result@ == joined(parts.take(index as int), hint_separator()),
        decreases hints@.len() - index,
    {
        assert(parts.take(index + 1).drop_last() == parts.take(index as int));
        if index > 0 {
            append_text(&mut result, separator);
        }
        append_text(&mut result, hints[index]);
        index += 1;
    }
    assert(parts.take(hints@.len() as int) == parts);
    result
}

} // verus!
