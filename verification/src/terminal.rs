//! What the terminal's environment asks of the interface.

use vstd::prelude::*;

use crate::text::chars_of;

verus! {

/// Whether a terminal name is `dumb`, ASCII letters compared without case.
pub open spec fn dumb_terminal(term: Seq<char>) -> bool {
    &&& term.len() == 4
    &&& (term[0] == 'd' || term[0] == 'D')
    &&& (term[1] == 'u' || term[1] == 'U')
    &&& (term[2] == 'm' || term[2] == 'M')
    &&& (term[3] == 'b' || term[3] == 'B')
}

/// Whether the interface runs plain, without colors and with ASCII separators: when the
/// plain-mode variable or `NO_COLOR` is set, or the terminal (`TERM`, when it is Unicode) is
/// `dumb` in any case.
pub fn plain_mode_requested(plain_variable: bool, no_color: bool, term: Option<&str>) -> (result: bool)
    ensures
        result == (plain_variable || no_color || match term {
            Some(term) => dumb_terminal(term@),
            None => false,
        }),
{
    if plain_variable || no_color {
        return true;
    }
    match term {
        None => false,
        Some(term) => {
            let characters = chars_of(term);
            characters.len() == 4 && (characters[0] == 'd' || characters[0] == 'D') && (characters[1] == 'u'
                || characters[1] == 'U') && (characters[2] == 'm' || characters[2] == 'M') && (characters[3]
                == 'b' || characters[3] == 'B')
        },
    }
}

} // verus!
