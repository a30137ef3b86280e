//! Big ASCII digit fonts.
//!
//! Two fonts:
//!  * `Okay` — clean, full-block (`█`). Used while time is healthy.
//!  * `Ko` — corrupted, zero-based (`0`/`░`). Used in warning/critical phases
//!    and alternated with `Okay` during overtime to give a "broken clock" feel.
//!
//! Each digit is 7 columns wide × 7 rows tall. The colon `:` and the minus
//! `-` are 3 columns. Composition: characters are concatenated horizontally
//! with a 1-col gap.

use vstd::prelude::*;
use crate::text::digit_char;

verus! {

#[derive(Clone, Copy, Debug, PartialEq, Eq, Structural)]
pub enum Font {
    Okay,
    Ko,
}

/// Number of text rows of every glyph.
pub const ROWS: usize = 7;

/// Row `r` of digit `d` in the `Okay` font.
pub open spec fn ok_digit_row(d: int, r: int) -> Seq<char> {
    if d == 0 && r == 0 {
        " █████ "@
    } else if d == 0 && r == 1 {
        "██   ██"@
    } else if d == 0 && r == 2 {
        "██   ██"@
    } else if d == 0 && r == 3 {
        "██   ██"@
    } else if d == 0 && r == 4 {
        "██   ██"@
    } else if d == 0 && r == 5 {
        "██   ██"@
    } else if d == 0 && r == 6 {
        " █████ "@
    } else if d == 1 && r == 0 {
        "  ██   "@
    } else if d == 1 && r == 1 {
        " ███   "@
    } else if d == 1 && r == 2 {
        "  ██   "@
    } else if d == 1 && r == 3 {
        "  ██   "@
    } else if d == 1 && r == 4 {
        "  ██   "@
    } else if d == 1 && r == 5 {
        "  ██   "@
    } else if d == 1 && r == 6 {
        "██████ "@
    } else if d == 2 && r == 0 {
        " █████ "@
    } else if d == 2 && r == 1 {
        "██   ██"@
    } else if d == 2 && r == 2 {
        "     ██"@
    } else if d == 2 && r == 3 {
        "  ████ "@
    } else if d == 2 && r == 4 {
        " ██    "@
    } else if d == 2 && r == 5 {
        "██     "@
    } else if d == 2 && r == 6 {
        "███████"@
    } else if d == 3 && r == 0 {
        " █████ "@
    } else if d == 3 && r == 1 {
        "██   ██"@
    } else if d == 3 && r == 2 {
        "     ██"@
    } else if d == 3 && r == 3 {
        "  ████ "@
    } else if d == 3 && r == 4 {
        "     ██"@
    } else if d == 3 && r == 5 {
        "██   ██"@
    } else if d == 3 && r == 6 {
        " █████ "@
    } else if d == 4 && r == 0 {
        "██   ██"@
    } else if d == 4 && r == 1 {
        "██   ██"@
    } else if d == 4 && r == 2 {
        "██   ██"@
    } else if d == 4 && r == 3 {
        "███████"@
    } else if d == 4 && r == 4 {
        "     ██"@
    } else if d == 4 && r == 5 {
        "     ██"@
    } else if d == 4 && r == 6 {
        "     ██"@
    } else if d == 5 && r == 0 {
        "███████"@
    } else if d == 5 && r == 1 {
        "██     "@
    } else if d == 5 && r == 2 {
        "██     "@
    } else if d == 5 && r == 3 {
        "██████ "@
    } else if d == 5 && r == 4 {
        "     ██"@
    } else if d == 5 && r == 5 {
        "██   ██"@
    } else if d == 5 && r == 6 {
        " █████ "@
    } else if d == 6 && r == 0 {
        " █████ "@
    } else if d == 6 && r == 1 {
        "██     "@
    } else if d == 6 && r == 2 {
        "██     "@
    } else if d == 6 && r == 3 {
        "██████ "@
    } else if d == 6 && r == 4 {
        "██   ██"@
    } else if d == 6 && r == 5 {
        "██   ██"@
    } else if d == 6 && r == 6 {
        " █████ "@
    } else if d == 7 && r == 0 {
        "███████"@
    } else if d == 7 && r == 1 {
        "     ██"@
    } else if d == 7 && r == 2 {
        "    ██ "@
    } else if d == 7 && r == 3 {
        "   ██  "@
    } else if d == 7 && r == 4 {
        "  ██   "@
    } else if d == 7 && r == 5 {
        " ██    "@
    } else if d == 7 && r == 6 {
        "██     "@
    } else if d == 8 && r == 0 {
        " █████ "@
    } else if d == 8 && r == 1 {
        "██   ██"@
    } else if d == 8 && r == 2 {
        "██   ██"@
    } else if d == 8 && r == 3 {
        " █████ "@
    } else if d == 8 && r == 4 {
        "██   ██"@
    } else if d == 8 && r == 5 {
        "██   ██"@
    } else if d == 8 && r == 6 {
        " █████ "@
    } else if d == 9 && r == 0 {
        " █████ "@
    } else if d == 9 && r == 1 {
        "██   ██"@
    } else if d == 9 && r == 2 {
        "██   ██"@
    } else if d == 9 && r == 3 {
        " ██████"@
    } else if d == 9 && r == 4 {
        "     ██"@
    } else if d == 9 && r == 5 {
        "     ██"@
    } else {
        " █████ "@
    }
}

/// Row `r` of digit `d` in the `Ko` font.
pub open spec fn ko_digit_row(d: int, r: int) -> Seq<char> {
    if d == 0 && r == 0 {
        " 00000 "@
    } else if d == 0 && r == 1 {
        "00░░░00"@
    } else if d == 0 && r == 2 {
        "00░ ░00"@
    } else if d == 0 && r == 3 {
        "00░ ░00"@
    } else if d == 0 && r == 4 {
        "00░ ░00"@
    } else if d == 0 && r == 5 {
        "00░░░00"@
    } else if d == 0 && r == 6 {
        " 00000 "@
    } else if d == 1 && r == 0 {
        "  00   "@
    } else if d == 1 && r == 1 {
        " 000   "@
    } else if d == 1 && r == 2 {
        "░░00░  "@
    } else if d == 1 && r == 3 {
        "  00░  "@
    } else if d == 1 && r == 4 {
        "  00░  "@
    } else if d == 1 && r == 5 {
        "  00░  "@
    } else if d == 1 && r == 6 {
        "000000 "@
    } else if d == 2 && r == 0 {
        " 00000 "@
    } else if d == 2 && r == 1 {
        "00░░░00"@
    } else if d == 2 && r == 2 {
        "░░░ ░00"@
    } else if d == 2 && r == 3 {
        "  ░000 "@
    } else if d == 2 && r == 4 {
        " 00░░░ "@
    } else if d == 2 && r == 5 {
        "00░░░░░"@
    } else if d == 2 && r == 6 {
        "0000000"@
    } else if d == 3 && r == 0 {
        " 00000 "@
    } else if d == 3 && r == 1 {
        "00░░░00"@
    } else if d == 3 && r == 2 {
        "░░░ ░00"@
    } else if d == 3 && r == 3 {
        "  ░00░ "@
    } else if d == 3 && r == 4 {
        "░░░ ░00"@
    } else if d == 3 && r == 5 {
        "00░ ░00"@
    } else if d == 3 && r == 6 {
        " 00000 "@
    } else if d == 4 && r == 0 {
        "00░ ░00"@
    } else if d == 4 && r == 1 {
        "00░ ░00"@
    } else if d == 4 && r == 2 {
        "00░ ░00"@
    } else if d == 4 && r == 3 {
        "0000000"@
    } else if d == 4 && r == 4 {
        "░░░ ░00"@
    } else if d == 4 && r == 5 {
        "░░░ ░00"@
    } else if d == 4 && r == 6 {
        "░░░ ░00"@
    } else if d == 5 && r == 0 {
        "0000000"@
    } else if d == 5 && r == 1 {
        "00░░░░░"@
    } else if d == 5 && r == 2 {
        "00░░░░░"@
    } else if d == 5 && r == 3 {
        "000000░"@
    } else if d == 5 && r == 4 {
        "░░░ ░00"@
    } else if d == 5 && r == 5 {
        "00░ ░00"@
    } else if d == 5 && r == 6 {
        " 00000 "@
    } else if d == 6 && r == 0 {
        " 00000 "@
    } else if d == 6 && r == 1 {
        "00░░░░░"@
    } else if d == 6 && r == 2 {
        "00░░░░░"@
    } else if d == 6 && r == 3 {
        "000000░"@
    } else if d == 6 && r == 4 {
        "00░ ░00"@
    } else if d == 6 && r == 5 {
        "00░ ░00"@
    } else if d == 6 && r == 6 {
        " 00000 "@
    } else if d == 7 && r == 0 {
        "0000000"@
    } else if d == 7 && r == 1 {
        "░░░ ░00"@
    } else if d == 7 && r == 2 {
        "░░ ░00░"@
    } else if d == 7 && r == 3 {
        "░ ░00░░"@
    } else if d == 7 && r == 4 {
        "  00░░░"@
    } else if d == 7 && r == 5 {
        " 00░░░░"@
    } else if d == 7 && r == 6 {
        "00░░░░░"@
    } else if d == 8 && r == 0 {
        " 00000 "@
    } else if d == 8 && r == 1 {
        "00░ ░00"@
    } else if d == 8 && r == 2 {
        "00░ ░00"@
    } else if d == 8 && r == 3 {
        " 00000 "@
    } else if d == 8 && r == 4 {
        "00░ ░00"@
    } else if d == 8 && r == 5 {
        "00░ ░00"@
    } else if d == 8 && r == 6 {
        " 00000 "@
    } else if d == 9 && r == 0 {
        " 00000 "@
    } else if d == 9 && r == 1 {
        "00░ ░00"@
    } else if d == 9 && r == 2 {
        "00░ ░00"@
    } else if d == 9 && r == 3 {
        " 000000"@
    } else if d == 9 && r == 4 {
        "░░░ ░00"@
    } else if d == 9 && r == 5 {
        "░░░ ░00"@
    } else {
        " 00000 "@
    }
}

/// Row `r` of the colon in the `Okay` font.
pub open spec fn ok_colon_row(r: int) -> Seq<char> {
    if r == 0 {
        "   "@
    } else if r == 1 {
        "██ "@
    } else if r == 2 {
        "██ "@
    } else if r == 3 {
        "   "@
    } else if r == 4 {
        "██ "@
    } else if r == 5 {
        "██ "@
    } else {
        "   "@
    }
}

/// Row `r` of the colon in the `Ko` font.
pub open spec fn ko_colon_row(r: int) -> Seq<char> {
    if r == 0 {
        "   "@
    } else if r == 1 {
        "00 "@
    } else if r == 2 {
        "00 "@
    } else if r == 3 {
        "   "@
    } else if r == 4 {
        "00 "@
    } else if r == 5 {
        "00 "@
    } else {
        "   "@
    }
}

/// Row `r` of the minus sign in the `Okay` font.
pub open spec fn ok_minus_row(r: int) -> Seq<char> {
    if r == 0 {
        "   "@
    } else if r == 1 {
        "   "@
    } else if r == 2 {
        "   "@
    } else if r == 3 {
        "███"@
    } else if r == 4 {
        "   "@
    } else if r == 5 {
        "   "@
    } else {
        "   "@
    }
}

/// Row `r` of the minus sign in the `Ko` font.
pub open spec fn ko_minus_row(r: int) -> Seq<char> {
    if r == 0 {
        "   "@
    } else if r == 1 {
        "   "@
    } else if r == 2 {
        "   "@
    } else if r == 3 {
        "000"@
    } else if r == 4 {
        "   "@
    } else if r == 5 {
        "   "@
    } else {
        "   "@
    }
}

/// Row `r` of the glyph drawn for `ch`: digits, `:` and `-` have their
/// own glyph in each font; any other character is drawn as the `Okay` colon.
pub open spec fn glyph_row(font: Font, ch: char, r: int) -> Seq<char> {
    if '0' <= ch && ch <= '9' {
        match font {
            Font::Okay => ok_digit_row(ch as int - '0' as int, r),
            Font::Ko => ko_digit_row(ch as int - '0' as int, r),
        }
    } else if ch == ':' {
        match font {
            Font::Okay => ok_colon_row(r),
            Font::Ko => ko_colon_row(r),
        }
    } else if ch == '-' {
        match font {
            Font::Okay => ok_minus_row(r),
            Font::Ko => ko_minus_row(r),
        }
    } else {
        ok_colon_row(r)
    }
}

/// Width in columns of the glyph drawn for `ch`.
pub open spec fn glyph_width(ch: char) -> nat {
    if '0' <= ch && ch <= '9' { 7 } else { 3 }
}

fn ok_digit(d: u32, r: usize) -> (s: &'static str)
    requires
        d < 10,
        r < 7,
    ensures
        s@ == ok_digit_row(d as int, r as int),
{
    if d == 0 && r == 0 {
        " █████ "
    } else if d == 0 && r == 1 {
        "██   ██"
    } else if d == 0 && r == 2 {
        "██   ██"
    } else if d == 0 && r == 3 {
        "██   ██"
    } else if d == 0 && r == 4 {
        "██   ██"
    } else if d == 0 && r == 5 {
        "██   ██"
    } else if d == 0 && r == 6 {
        " █████ "
    } else if d == 1 && r == 0 {
        "  ██   "
    } else if d == 1 && r == 1 {
        " ███   "
    } else if d == 1 && r == 2 {
        "  ██   "
    } else if d == 1 && r == 3 {
        "  ██   "
    } else if d == 1 && r == 4 {
        "  ██   "
    } else if d == 1 && r == 5 {
        "  ██   "
    } else if d == 1 && r == 6 {
        "██████ "
    } else if d == 2 && r == 0 {
        " █████ "
    } else if d == 2 && r == 1 {
        "██   ██"
    } else if d == 2 && r == 2 {
        "     ██"
    } else if d == 2 && r == 3 {
        "  ████ "
    } else if d == 2 && r == 4 {
        " ██    "
    } else if d == 2 && r == 5 {
        "██     "
    } else if d == 2 && r == 6 {
        "███████"
    } else if d == 3 && r == 0 {
        " █████ "
    } else if d == 3 && r == 1 {
        "██   ██"
    } else if d == 3 && r == 2 {
        "     ██"
    } else if d == 3 && r == 3 {
        "  ████ "
    } else if d == 3 && r == 4 {
        "     ██"
    } else if d == 3 && r == 5 {
        "██   ██"
    } else if d == 3 && r == 6 {
        " █████ "
    } else if d == 4 && r == 0 {
        "██   ██"
    } else if d == 4 && r == 1 {
        "██   ██"
    } else if d == 4 && r == 2 {
        "██   ██"
    } else if d == 4 && r == 3 {
        "███████"
    } else if d == 4 && r == 4 {
        "     ██"
    } else if d == 4 && r == 5 {
        "     ██"
    } else if d == 4 && r == 6 {
        "     ██"
    } else if d == 5 && r == 0 {
        "███████"
    } else if d == 5 && r == 1 {
        "██     "
    } else if d == 5 && r == 2 {
        "██     "
    } else if d == 5 && r == 3 {
        "██████ "
    } else if d == 5 && r == 4 {
        "     ██"
    } else if d == 5 && r == 5 {
        "██   ██"
    } else if d == 5 && r == 6 {
        " █████ "
    } else if d == 6 && r == 0 {
        " █████ "
    } else if d == 6 && r == 1 {
        "██     "
    } else if d == 6 && r == 2 {
        "██     "
    } else if d == 6 && r == 3 {
        "██████ "
    } else if d == 6 && r == 4 {
        "██   ██"
    } else if d == 6 && r == 5 {
        "██   ██"
    } else if d == 6 && r == 6 {
        " █████ "
    } else if d == 7 && r == 0 {
        "███████"
    } else if d == 7 && r == 1 {
        "     ██"
    } else if d == 7 && r == 2 {
        "    ██ "
    } else if d == 7 && r == 3 {
        "   ██  "
    } else if d == 7 && r == 4 {
        "  ██   "
    } else if d == 7 && r == 5 {
        " ██    "
    } else if d == 7 && r == 6 {
        "██     "
    } else if d == 8 && r == 0 {
        " █████ "
    } else if d == 8 && r == 1 {
        "██   ██"
    } else if d == 8 && r == 2 {
        "██   ██"
    } else if d == 8 && r == 3 {
        " █████ "
    } else if d == 8 && r == 4 {
        "██   ██"
    } else if d == 8 && r == 5 {
        "██   ██"
    } else if d == 8 && r == 6 {
        " █████ "
    } else if d == 9 && r == 0 {
        " █████ "
    } else if d == 9 && r == 1 {
        "██   ██"
    } else if d == 9 && r == 2 {
        "██   ██"
    } else if d == 9 && r == 3 {
        " ██████"
    } else if d == 9 && r == 4 {
        "     ██"
    } else if d == 9 && r == 5 {
        "     ██"
    } else {
        " █████ "
    }
}

fn ko_digit(d: u32, r: usize) -> (s: &'static str)
    requires
        d < 10,
        r < 7,
    ensures
        s@ == ko_digit_row(d as int, r as int),
{
    if d == 0 && r == 0 {
        " 00000 "
    } else if d == 0 && r == 1 {
        "00░░░00"
    } else if d == 0 && r == 2 {
        "00░ ░00"
    } else if d == 0 && r == 3 {
        "00░ ░00"
    } else if d == 0 && r == 4 {
        "00░ ░00"
    } else if d == 0 && r == 5 {
        "00░░░00"
    } else if d == 0 && r == 6 {
        " 00000 "
    } else if d == 1 && r == 0 {
        "  00   "
    } else if d == 1 && r == 1 {
        " 000   "
    } else if d == 1 && r == 2 {
        "░░00░  "
    } else if d == 1 && r == 3 {
        "  00░  "
    } else if d == 1 && r == 4 {
        "  00░  "
    } else if d == 1 && r == 5 {
        "  00░  "
    } else if d == 1 && r == 6 {
        "000000 "
    } else if d == 2 && r == 0 {
        " 00000 "
    } else if d == 2 && r == 1 {
        "00░░░00"
    } else if d == 2 && r == 2 {
        "░░░ ░00"
    } else if d == 2 && r == 3 {
        "  ░000 "
    } else if d == 2 && r == 4 {
        " 00░░░ "
    } else if d == 2 && r == 5 {
        "00░░░░░"
    } else if d == 2 && r == 6 {
        "0000000"
    } else if d == 3 && r == 0 {
        " 00000 "
    } else if d == 3 && r == 1 {
        "00░░░00"
    } else if d == 3 && r == 2 {
        "░░░ ░00"
    } else if d == 3 && r == 3 {
        "  ░00░ "
    } else if d == 3 && r == 4 {
        "░░░ ░00"
    } else if d == 3 && r == 5 {
        "00░ ░00"
    } else if d == 3 && r == 6 {
        " 00000 "
    } else if d == 4 && r == 0 {
        "00░ ░00"
    } else if d == 4 && r == 1 {
        "00░ ░00"
    } else if d == 4 && r == 2 {
        "00░ ░00"
    } else if d == 4 && r == 3 {
        "0000000"
    } else if d == 4 && r == 4 {
        "░░░ ░00"
    } else if d == 4 && r == 5 {
        "░░░ ░00"
    } else if d == 4 && r == 6 {
        "░░░ ░00"
    } else if d == 5 && r == 0 {
        "0000000"
    } else if d == 5 && r == 1 {
        "00░░░░░"
    } else if d == 5 && r == 2 {
        "00░░░░░"
    } else if d == 5 && r == 3 {
        "000000░"
    } else if d == 5 && r == 4 {
        "░░░ ░00"
    } else if d == 5 && r == 5 {
        "00░ ░00"
    } else if d == 5 && r == 6 {
        " 00000 "
    } else if d == 6 && r == 0 {
        " 00000 "
    } else if d == 6 && r == 1 {
        "00░░░░░"
    } else if d == 6 && r == 2 {
        "00░░░░░"
    } else if d == 6 && r == 3 {
        "000000░"
    } else if d == 6 && r == 4 {
        "00░ ░00"
    } else if d == 6 && r == 5 {
        "00░ ░00"
    } else if d == 6 && r == 6 {
        " 00000 "
    } else if d == 7 && r == 0 {
        "0000000"
    } else if d == 7 && r == 1 {
        "░░░ ░00"
    } else if d == 7 && r == 2 {
        "░░ ░00░"
    } else if d == 7 && r == 3 {
        "░ ░00░░"
    } else if d == 7 && r == 4 {
        "  00░░░"
    } else if d == 7 && r == 5 {
        " 00░░░░"
    } else if d == 7 && r == 6 {
        "00░░░░░"
    } else if d == 8 && r == 0 {
        " 00000 "
    } else if d == 8 && r == 1 {
        "00░ ░00"
    } else if d == 8 && r == 2 {
        "00░ ░00"
    } else if d == 8 && r == 3 {
        " 00000 "
    } else if d == 8 && r == 4 {
        "00░ ░00"
    } else if d == 8 && r == 5 {
        "00░ ░00"
    } else if d == 8 && r == 6 {
        " 00000 "
    } else if d == 9 && r == 0 {
        " 00000 "
    } else if d == 9 && r == 1 {
        "00░ ░00"
    } else if d == 9 && r == 2 {
        "00░ ░00"
    } else if d == 9 && r == 3 {
        " 000000"
    } else if d == 9 && r == 4 {
        "░░░ ░00"
    } else if d == 9 && r == 5 {
        "░░░ ░00"
    } else {
        " 00000 "
    }
}

fn ok_colon(r: usize) -> (s: &'static str)
    requires
        r < 7,
    ensures
        s@ == ok_colon_row(r as int),
{
    if r == 0 {
        "   "
    } else if r == 1 {
        "██ "
    } else if r == 2 {
        "██ "
    } else if r == 3 {
        "   "
    } else if r == 4 {
        "██ "
    } else if r == 5 {
        "██ "
    } else {
        "   "
    }
}

fn ko_colon(r: usize) -> (s: &'static str)
    requires
        r < 7,
    ensures
        s@ == ko_colon_row(r as int),
{
    if r == 0 {
        "   "
    } else if r == 1 {
        "00 "
    } else if r == 2 {
        "00 "
    } else if r == 3 {
        "   "
    } else if r == 4 {
        "00 "
    } else if r == 5 {
        "00 "
    } else {
        "   "
    }
}

fn ok_minus(r: usize) -> (s: &'static str)
    requires
        r < 7,
    ensures
        s@ == ok_minus_row(r as int),
{
    if r == 0 {
        "   "
    } else if r == 1 {
        "   "
    } else if r == 2 {
        "   "
    } else if r == 3 {
        "███"
    } else if r == 4 {
        "   "
    } else if r == 5 {
        "   "
    } else {
        "   "
    }
}

fn ko_minus(r: usize) -> (s: &'static str)
    requires
        r < 7,
    ensures
        s@ == ko_minus_row(r as int),
{
    if r == 0 {
        "   "
    } else if r == 1 {
        "   "
    } else if r == 2 {
        "   "
    } else if r == 3 {
        "000"
    } else if r == 4 {
        "   "
    } else if r == 5 {
        "   "
    } else {
        "   "
    }
}

proof fn lemma_ok_digit_width(d: int, r: int)
    requires
        0 <= d < 10,
        0 <= r < 7,
    ensures
        ok_digit_row(d, r).len() == 7,
{
    reveal_strlit(" █████ ");
    reveal_strlit("██   ██");
    reveal_strlit("██   ██");
    reveal_strlit("██   ██");
    reveal_strlit("██   ██");
    reveal_strlit("██   ██");
    reveal_strlit(" █████ ");
    reveal_strlit("  ██   ");
    reveal_strlit(" ███   ");
    reveal_strlit("  ██   ");
    reveal_strlit("  ██   ");
    reveal_strlit("  ██   ");
    reveal_strlit("  ██   ");
    reveal_strlit("██████ ");
    reveal_strlit(" █████ ");
    reveal_strlit("██   ██");
    reveal_strlit("     ██");
    reveal_strlit("  ████ ");
    reveal_strlit(" ██    ");
    reveal_strlit("██     ");
    reveal_strlit("███████");
    reveal_strlit(" █████ ");
    reveal_strlit("██   ██");
    reveal_strlit("     ██");
    reveal_strlit("  ████ ");
    reveal_strlit("     ██");
    reveal_strlit("██   ██");
    reveal_strlit(" █████ ");
    reveal_strlit("██   ██");
    reveal_strlit("██   ██");
    reveal_strlit("██   ██");
    reveal_strlit("███████");
    reveal_strlit("     ██");
    reveal_strlit("     ██");
    reveal_strlit("     ██");
    reveal_strlit("███████");
    reveal_strlit("██     ");
    reveal_strlit("██     ");
    reveal_strlit("██████ ");
    reveal_strlit("     ██");
    reveal_strlit("██   ██");
    reveal_strlit(" █████ ");
    reveal_strlit(" █████ ");
    reveal_strlit("██     ");
    reveal_strlit("██     ");
    reveal_strlit("██████ ");
    reveal_strlit("██   ██");
    reveal_strlit("██   ██");
    reveal_strlit(" █████ ");
    reveal_strlit("███████");
    reveal_strlit("     ██");
    reveal_strlit("    ██ ");
    reveal_strlit("   ██  ");
    reveal_strlit("  ██   ");
    reveal_strlit(" ██    ");
    reveal_strlit("██     ");
    reveal_strlit(" █████ ");
    reveal_strlit("██   ██");
    reveal_strlit("██   ██");
    reveal_strlit(" █████ ");
    reveal_strlit("██   ██");
    reveal_strlit("██   ██");
    reveal_strlit(" █████ ");
    reveal_strlit(" █████ ");
    reveal_strlit("██   ██");
    reveal_strlit("██   ██");
    reveal_strlit(" ██████");
    reveal_strlit("     ██");
    reveal_strlit("     ██");
    reveal_strlit(" █████ ");
}

proof fn lemma_ko_digit_width(d: int, r: int)
    requires
        0 <= d < 10,
        0 <= r < 7,
    ensures
        ko_digit_row(d, r).len() == 7,
{
    reveal_strlit(" 00000 ");
    reveal_strlit("00░░░00");
    reveal_strlit("00░ ░00");
    reveal_strlit("00░ ░00");
    reveal_strlit("00░ ░00");
    reveal_strlit("00░░░00");
    reveal_strlit(" 00000 ");
    reveal_strlit("  00   ");
    reveal_strlit(" 000   ");
    reveal_strlit("░░00░  ");
    reveal_strlit("  00░  ");
    reveal_strlit("  00░  ");
    reveal_strlit("  00░  ");
    reveal_strlit("000000 ");
    reveal_strlit(" 00000 ");
    reveal_strlit("00░░░00");
    reveal_strlit("░░░ ░00");
    reveal_strlit("  ░000 ");
    reveal_strlit(" 00░░░ ");
    reveal_strlit("00░░░░░");
    reveal_strlit("0000000");
    reveal_strlit(" 00000 ");
    reveal_strlit("00░░░00");
    reveal_strlit("░░░ ░00");
    reveal_strlit("  ░00░ ");
    reveal_strlit("░░░ ░00");
    reveal_strlit("00░ ░00");
    reveal_strlit(" 00000 ");
    reveal_strlit("00░ ░00");
    reveal_strlit("00░ ░00");
    reveal_strlit("00░ ░00");
    reveal_strlit("0000000");
    reveal_strlit("░░░ ░00");
    reveal_strlit("░░░ ░00");
    reveal_strlit("░░░ ░00");
    reveal_strlit("0000000");
    reveal_strlit("00░░░░░");
    reveal_strlit("00░░░░░");
    reveal_strlit("000000░");
    reveal_strlit("░░░ ░00");
    reveal_strlit("00░ ░00");
    reveal_strlit(" 00000 ");
    reveal_strlit(" 00000 ");
    reveal_strlit("00░░░░░");
    reveal_strlit("00░░░░░");
    reveal_strlit("000000░");
    reveal_strlit("00░ ░00");
    reveal_strlit("00░ ░00");
    reveal_strlit(" 00000 ");
    reveal_strlit("0000000");
    reveal_strlit("░░░ ░00");
    reveal_strlit("░░ ░00░");
    reveal_strlit("░ ░00░░");
    reveal_strlit("  00░░░");
    reveal_strlit(" 00░░░░");
    reveal_strlit("00░░░░░");
    reveal_strlit(" 00000 ");
    reveal_strlit("00░ ░00");
    reveal_strlit("00░ ░00");
    reveal_strlit(" 00000 ");
    reveal_strlit("00░ ░00");
    reveal_strlit("00░ ░00");
    reveal_strlit(" 00000 ");
    reveal_strlit(" 00000 ");
    reveal_strlit("00░ ░00");
    reveal_strlit("00░ ░00");
    reveal_strlit(" 000000");
    reveal_strlit("░░░ ░00");
    reveal_strlit("░░░ ░00");
    reveal_strlit(" 00000 ");
}

proof fn lemma_ok_colon_width(r: int)
    requires
        0 <= r < 7,
    ensures
        ok_colon_row(r).len() == 3,
{
    reveal_strlit("   ");
    reveal_strlit("██ ");
    reveal_strlit("██ ");
    reveal_strlit("   ");
    reveal_strlit("██ ");
    reveal_strlit("██ ");
    reveal_strlit("   ");
}

proof fn lemma_ko_colon_width(r: int)
    requires
        0 <= r < 7,
    ensures
        ko_colon_row(r).len() == 3,
{
    reveal_strlit("   ");
    reveal_strlit("00 ");
    reveal_strlit("00 ");
    reveal_strlit("   ");
    reveal_strlit("00 ");
    reveal_strlit("00 ");
    reveal_strlit("   ");
}

proof fn lemma_ok_minus_width(r: int)
    requires
        0 <= r < 7,
    ensures
        ok_minus_row(r).len() == 3,
{
    reveal_strlit("   ");
    reveal_strlit("   ");
    reveal_strlit("   ");
    reveal_strlit("███");
    reveal_strlit("   ");
    reveal_strlit("   ");
    reveal_strlit("   ");
}

proof fn lemma_ko_minus_width(r: int)
    requires
        0 <= r < 7,
    ensures
        ko_minus_row(r).len() == 3,
{
    reveal_strlit("   ");
    reveal_strlit("   ");
    reveal_strlit("   ");
    reveal_strlit("000");
    reveal_strlit("   ");
    reveal_strlit("   ");
    reveal_strlit("   ");
}

/// Every row of a glyph has the glyph's width.
pub proof fn lemma_glyph_row_width(font: Font, ch: char, r: int)
    requires
        0 <= r < 7,
    ensures
        glyph_row(font, ch, r).len() == glyph_width(ch),
{
    if '0' <= ch && ch <= '9' {
        match font {
            Font::Okay => lemma_ok_digit_width(ch as int - '0' as int, r),
            Font::Ko => lemma_ko_digit_width(ch as int - '0' as int, r),
        }
    } else if ch == ':' {
        match font {
            Font::Okay => lemma_ok_colon_width(r),
            Font::Ko => lemma_ko_colon_width(r),
        }
    } else if ch == '-' {
        match font {
            Font::Okay => lemma_ok_minus_width(r),
            Font::Ko => lemma_ko_minus_width(r),
        }
    } else {
        lemma_ok_colon_width(r);
    }
}

/// Row `r` of the glyph for `ch`.
pub fn glyph_row_str(font: Font, ch: char, r: usize) -> (s: &'static str)
    requires
        r < 7,
    ensures
        s@ == glyph_row(font, ch, r as int),
{
    if '0' <= ch && ch <= '9' {
        let d = (ch as u32) - ('0' as u32);
        match font {
            Font::Okay => ok_digit(d, r),
            Font::Ko => ko_digit(d, r),
        }
    } else if ch == ':' {
        match font {
            Font::Okay => ok_colon(r),
            Font::Ko => ko_colon(r),
        }
    } else if ch == '-' {
        match font {
            Font::Okay => ok_minus(r),
            Font::Ko => ko_minus(r),
        }
    } else {
        ok_colon(r)
    }
}

/// The seven rows of the glyph for `ch`, top to bottom.
pub fn glyph(font: Font, ch: char) -> (rows: Vec<&'static str>)
    ensures
        rows@.len() == ROWS,
        forall|r: int| 0 <= r < ROWS ==> (#[trigger] rows@[r])@ == glyph_row(font, ch, r),
{
    let mut rows: Vec<&'static str> = Vec::new();
    let mut r: usize = 0;
    while r < ROWS
        invariant
            r <= ROWS,
            rows@.len() == r,
            forall|j: int| 0 <= j < r ==> (#[trigger] rows@[j])@ == glyph_row(font, ch, j),
        decreases ROWS - r,
    {
        rows.push(glyph_row_str(font, ch, r));
        r = r + 1;
    }
    rows
}

/// Row `r` of the banner for the characters `cs`: the glyph rows of the
/// characters, left to right, separated by one space.
pub open spec fn big_line(cs: Seq<char>, font: Font, r: int) -> Seq<char>
    decreases cs.len(),
{
    if cs.len() == 0 {
        Seq::empty()
    } else if cs.len() == 1 {
        glyph_row(font, cs[0], r)
    } else {
        big_line(cs.drop_last(), font, r) + seq![' '] + glyph_row(font, cs.last(), r)
    }
}

/// The width of the banner for `cs`: the glyph widths plus one column
/// between neighbouring glyphs.
pub open spec fn banner_width(cs: Seq<char>) -> nat
    decreases cs.len(),
{
    if cs.len() == 0 {
        0
    } else if cs.len() == 1 {
        glyph_width(cs[0])
    } else {
        banner_width(cs.drop_last()) + 1 + glyph_width(cs.last())
    }
}

/// Render a string (digits, ':', '-') as a 7-line ASCII-art block.
pub fn render_big(s: &str, font: Font) -> (lines: Vec<String>)
    ensures
        lines@.len() == ROWS,
        forall|r: int| 0 <= r < ROWS ==> (#[trigger] lines@[r])@ == big_line(s@, font, r),
{
    let n = s.unicode_len();
    let mut lines: Vec<String> = Vec::new();
    let mut r: usize = 0;
    proof {
        reveal_strlit(" ");
    }
    while r < ROWS
        invariant
            r <= ROWS,
            n == s@.len(),
            " "@ == seq![' '],
            lines@.len() == r,
            forall|j: int| 0 <= j < r ==> (#[trigger] lines@[j])@ == big_line(s@, font, j),
        decreases ROWS - r,
    {
        let mut line = String::new();
        let mut i: usize = 0;
        while i < n
            invariant
                i <= n,
                n == s@.len(),
                r < ROWS,
                " "@ == seq![' '],
                line@ == big_line(s@.take(i as int), font, r as int),
            decreases n - i,
        {
            let ch = s.get_char(i);
            if i > 0 {
                line.append(" ");
            }
            line.append(glyph_row_str(font, ch, r));
            proof {
                let next = s@.take(i as int + 1);
                assert(next.drop_last() =~= s@.take(i as int));
                assert(next.last() == ch);
                if i == 0 {
                    assert(next.len() == 1 && next[0] == ch);
                    assert(s@.take(0) =~= Seq::<char>::empty());
                }
            }
            i = i + 1;
        }
        assert(s@.take(n as int) =~= s@);
        lines.push(line);
        r = r + 1;
    }
    lines
}

/// All rows of a banner have the same width: the glyph widths plus one
/// column between neighbouring glyphs.
pub proof fn law_banner_rows_have_equal_width(cs: Seq<char>, font: Font, r: int)
    requires
        0 <= r < ROWS,
    ensures
        big_line(cs, font, r).len() == banner_width(cs),
    decreases cs.len(),
{
    if cs.len() == 1 {
        lemma_glyph_row_width(font, cs[0], r);
    } else if cs.len() > 1 {
        law_banner_rows_have_equal_width(cs.drop_last(), font, r);
        lemma_glyph_row_width(font, cs.last(), r);
    }
}

/// The big font, row by row: the seven rows of each digit, the colon and
/// the minus in both fonts, as the clock shows them.
pub proof fn law_font_table()
    ensures
        glyph_row(Font::Okay, '0', 0) == " █████ "@,
        glyph_row(Font::Okay, '0', 1) == "██   ██"@,
        glyph_row(Font::Okay, '0', 2) == "██   ██"@,
        glyph_row(Font::Okay, '0', 3) == "██   ██"@,
        glyph_row(Font::Okay, '0', 4) == "██   ██"@,
        glyph_row(Font::Okay, '0', 5) == "██   ██"@,
        glyph_row(Font::Okay, '0', 6) == " █████ "@,
        glyph_row(Font::Okay, '1', 0) == "  ██   "@,
        glyph_row(Font::Okay, '1', 1) == " ███   "@,
        glyph_row(Font::Okay, '1', 2) == "  ██   "@,
        glyph_row(Font::Okay, '1', 3) == "  ██   "@,
        glyph_row(Font::Okay, '1', 4) == "  ██   "@,
        glyph_row(Font::Okay, '1', 5) == "  ██   "@,
        glyph_row(Font::Okay, '1', 6) == "██████ "@,
        glyph_row(Font::Okay, '2', 0) == " █████ "@,
        glyph_row(Font::Okay, '2', 1) == "██   ██"@,
        glyph_row(Font::Okay, '2', 2) == "     ██"@,
        glyph_row(Font::Okay, '2', 3) == "  ████ "@,
        glyph_row(Font::Okay, '2', 4) == " ██    "@,
        glyph_row(Font::Okay, '2', 5) == "██     "@,
        glyph_row(Font::Okay, '2', 6) == "███████"@,
        glyph_row(Font::Okay, '3', 0) == " █████ "@,
        glyph_row(Font::Okay, '3', 1) == "██   ██"@,
        glyph_row(Font::Okay, '3', 2) == "     ██"@,
        glyph_row(Font::Okay, '3', 3) == "  ████ "@,
        glyph_row(Font::Okay, '3', 4) == "     ██"@,
        glyph_row(Font::Okay, '3', 5) == "██   ██"@,
        glyph_row(Font::Okay, '3', 6) == " █████ "@,
        glyph_row(Font::Okay, '4', 0) == "██   ██"@,
        glyph_row(Font::Okay, '4', 1) == "██   ██"@,
        glyph_row(Font::Okay, '4', 2) == "██   ██"@,
        glyph_row(Font::Okay, '4', 3) == "███████"@,
        glyph_row(Font::Okay, '4', 4) == "     ██"@,
        glyph_row(Font::Okay, '4', 5) == "     ██"@,
        glyph_row(Font::Okay, '4', 6) == "     ██"@,
        glyph_row(Font::Okay, '5', 0) == "███████"@,
        glyph_row(Font::Okay, '5', 1) == "██     "@,
        glyph_row(Font::Okay, '5', 2) == "██     "@,
        glyph_row(Font::Okay, '5', 3) == "██████ "@,
        glyph_row(Font::Okay, '5', 4) == "     ██"@,
        glyph_row(Font::Okay, '5', 5) == "██   ██"@,
        glyph_row(Font::Okay, '5', 6) == " █████ "@,
        glyph_row(Font::Okay, '6', 0) == " █████ "@,
        glyph_row(Font::Okay, '6', 1) == "██     "@,
        glyph_row(Font::Okay, '6', 2) == "██     "@,
        glyph_row(Font::Okay, '6', 3) == "██████ "@,
        glyph_row(Font::Okay, '6', 4) == "██   ██"@,
        glyph_row(Font::Okay, '6', 5) == "██   ██"@,
        glyph_row(Font::Okay, '6', 6) == " █████ "@,
        glyph_row(Font::Okay, '7', 0) == "███████"@,
        glyph_row(Font::Okay, '7', 1) == "     ██"@,
        glyph_row(Font::Okay, '7', 2) == "    ██ "@,
        glyph_row(Font::Okay, '7', 3) == "   ██  "@,
        glyph_row(Font::Okay, '7', 4) == "  ██   "@,
        glyph_row(Font::Okay, '7', 5) == " ██    "@,
        glyph_row(Font::Okay, '7', 6) == "██     "@,
        glyph_row(Font::Okay, '8', 0) == " █████ "@,
        glyph_row(Font::Okay, '8', 1) == "██   ██"@,
        glyph_row(Font::Okay, '8', 2) == "██   ██"@,
        glyph_row(Font::Okay, '8', 3) == " █████ "@,
        glyph_row(Font::Okay, '8', 4) == "██   ██"@,
        glyph_row(Font::Okay, '8', 5) == "██   ██"@,
        glyph_row(Font::Okay, '8', 6) == " █████ "@,
        glyph_row(Font::Okay, '9', 0) == " █████ "@,
        glyph_row(Font::Okay, '9', 1) == "██   ██"@,
        glyph_row(Font::Okay, '9', 2) == "██   ██"@,
        glyph_row(Font::Okay, '9', 3) == " ██████"@,
        glyph_row(Font::Okay, '9', 4) == "     ██"@,
        glyph_row(Font::Okay, '9', 5) == "     ██"@,
        glyph_row(Font::Okay, '9', 6) == " █████ "@,
        glyph_row(Font::Okay, ':', 0) == "   "@,
        glyph_row(Font::Okay, ':', 1) == "██ "@,
        glyph_row(Font::Okay, ':', 2) == "██ "@,
        glyph_row(Font::Okay, ':', 3) == "   "@,
        glyph_row(Font::Okay, ':', 4) == "██ "@,
        glyph_row(Font::Okay, ':', 5) == "██ "@,
        glyph_row(Font::Okay, ':', 6) == "   "@,
        glyph_row(Font::Okay, '-', 0) == "   "@,
        glyph_row(Font::Okay, '-', 1) == "   "@,
        glyph_row(Font::Okay, '-', 2) == "   "@,
        glyph_row(Font::Okay, '-', 3) == "███"@,
        glyph_row(Font::Okay, '-', 4) == "   "@,
        glyph_row(Font::Okay, '-', 5) == "   "@,
        glyph_row(Font::Okay, '-', 6) == "   "@,
        glyph_row(Font::Ko, '0', 0) == " 00000 "@,
        glyph_row(Font::Ko, '0', 1) == "00░░░00"@,
        glyph_row(Font::Ko, '0', 2) == "00░ ░00"@,
        glyph_row(Font::Ko, '0', 3) == "00░ ░00"@,
        glyph_row(Font::Ko, '0', 4) == "00░ ░00"@,
        glyph_row(Font::Ko, '0', 5) == "00░░░00"@,
        glyph_row(Font::Ko, '0', 6) == " 00000 "@,
        glyph_row(Font::Ko, '1', 0) == "  00   "@,
        glyph_row(Font::Ko, '1', 1) == " 000   "@,
        glyph_row(Font::Ko, '1', 2) == "░░00░  "@,
        glyph_row(Font::Ko, '1', 3) == "  00░  "@,
        glyph_row(Font::Ko, '1', 4) == "  00░  "@,
        glyph_row(Font::Ko, '1', 5) == "  00░  "@,
        glyph_row(Font::Ko, '1', 6) == "000000 "@,
        glyph_row(Font::Ko, '2', 0) == " 00000 "@,
        glyph_row(Font::Ko, '2', 1) == "00░░░00"@,
        glyph_row(Font::Ko, '2', 2) == "░░░ ░00"@,
        glyph_row(Font::Ko, '2', 3) == "  ░000 "@,
        glyph_row(Font::Ko, '2', 4) == " 00░░░ "@,
        glyph_row(Font::Ko, '2', 5) == "00░░░░░"@,
        glyph_row(Font::Ko, '2', 6) == "0000000"@,
        glyph_row(Font::Ko, '3', 0) == " 00000 "@,
        glyph_row(Font::Ko, '3', 1) == "00░░░00"@,
        glyph_row(Font::Ko, '3', 2) == "░░░ ░00"@,
        glyph_row(Font::Ko, '3', 3) == "  ░00░ "@,
        glyph_row(Font::Ko, '3', 4) == "░░░ ░00"@,
        glyph_row(Font::Ko, '3', 5) == "00░ ░00"@,
        glyph_row(Font::Ko, '3', 6) == " 00000 "@,
        glyph_row(Font::Ko, '4', 0) == "00░ ░00"@,
        glyph_row(Font::Ko, '4', 1) == "00░ ░00"@,
        glyph_row(Font::Ko, '4', 2) == "00░ ░00"@,
        glyph_row(Font::Ko, '4', 3) == "0000000"@,
        glyph_row(Font::Ko, '4', 4) == "░░░ ░00"@,
        glyph_row(Font::Ko, '4', 5) == "░░░ ░00"@,
        glyph_row(Font::Ko, '4', 6) == "░░░ ░00"@,
        glyph_row(Font::Ko, '5', 0) == "0000000"@,
        glyph_row(Font::Ko, '5', 1) == "00░░░░░"@,
        glyph_row(Font::Ko, '5', 2) == "00░░░░░"@,
        glyph_row(Font::Ko, '5', 3) == "000000░"@,
        glyph_row(Font::Ko, '5', 4) == "░░░ ░00"@,
        glyph_row(Font::Ko, '5', 5) == "00░ ░00"@,
        glyph_row(Font::Ko, '5', 6) == " 00000 "@,
        glyph_row(Font::Ko, '6', 0) == " 00000 "@,
        glyph_row(Font::Ko, '6', 1) == "00░░░░░"@,
        glyph_row(Font::Ko, '6', 2) == "00░░░░░"@,
        glyph_row(Font::Ko, '6', 3) == "000000░"@,
        glyph_row(Font::Ko, '6', 4) == "00░ ░00"@,
        glyph_row(Font::Ko, '6', 5) == "00░ ░00"@,
        glyph_row(Font::Ko, '6', 6) == " 00000 "@,
        glyph_row(Font::Ko, '7', 0) == "0000000"@,
        glyph_row(Font::Ko, '7', 1) == "░░░ ░00"@,
        glyph_row(Font::Ko, '7', 2) == "░░ ░00░"@,
        glyph_row(Font::Ko, '7', 3) == "░ ░00░░"@,
        glyph_row(Font::Ko, '7', 4) == "  00░░░"@,
        glyph_row(Font::Ko, '7', 5) == " 00░░░░"@,
        glyph_row(Font::Ko, '7', 6) == "00░░░░░"@,
        glyph_row(Font::Ko, '8', 0) == " 00000 "@,
        glyph_row(Font::Ko, '8', 1) == "00░ ░00"@,
        glyph_row(Font::Ko, '8', 2) == "00░ ░00"@,
        glyph_row(Font::Ko, '8', 3) == " 00000 "@,
        glyph_row(Font::Ko, '8', 4) == "00░ ░00"@,
        glyph_row(Font::Ko, '8', 5) == "00░ ░00"@,
        glyph_row(Font::Ko, '8', 6) == " 00000 "@,
        glyph_row(Font::Ko, '9', 0) == " 00000 "@,
        glyph_row(Font::Ko, '9', 1) == "00░ ░00"@,
        glyph_row(Font::Ko, '9', 2) == "00░ ░00"@,
        glyph_row(Font::Ko, '9', 3) == " 000000"@,
        glyph_row(Font::Ko, '9', 4) == "░░░ ░00"@,
        glyph_row(Font::Ko, '9', 5) == "░░░ ░00"@,
        glyph_row(Font::Ko, '9', 6) == " 00000 "@,
        glyph_row(Font::Ko, ':', 0) == "   "@,
        glyph_row(Font::Ko, ':', 1) == "00 "@,
        glyph_row(Font::Ko, ':', 2) == "00 "@,
        glyph_row(Font::Ko, ':', 3) == "   "@,
        glyph_row(Font::Ko, ':', 4) == "00 "@,
        glyph_row(Font::Ko, ':', 5) == "00 "@,
        glyph_row(Font::Ko, ':', 6) == "   "@,
        glyph_row(Font::Ko, '-', 0) == "   "@,
        glyph_row(Font::Ko, '-', 1) == "   "@,
        glyph_row(Font::Ko, '-', 2) == "   "@,
        glyph_row(Font::Ko, '-', 3) == "000"@,
        glyph_row(Font::Ko, '-', 4) == "   "@,
        glyph_row(Font::Ko, '-', 5) == "   "@,
        glyph_row(Font::Ko, '-', 6) == "   "@,
{
}

/// The seven rows of the glyph of digit `d`.
pub open spec fn digit_glyph(font: Font, d: int) -> Seq<Seq<char>> {
    Seq::new(7, |r: int| glyph_row(font, digit_char(d), r))
}

/// No two digits share a glyph, in either font: every time on the clock
/// reads as itself.
pub proof fn law_digits_are_distinct(font: Font, d1: int, d2: int)
    requires
        0 <= d1 < 10,
        0 <= d2 < 10,
        d1 != d2,
    ensures
        digit_glyph(font, d1) != digit_glyph(font, d2),
{
    law_font_table();
    reveal_strlit("     ██");
    reveal_strlit("  00   ");
    reveal_strlit("  ██   ");
    reveal_strlit("  ░000 ");
    reveal_strlit("  ░00░ ");
    reveal_strlit(" 00000 ");
    reveal_strlit(" 000000");
    reveal_strlit(" ██    ");
    reveal_strlit(" █████ ");
    reveal_strlit(" ██████");
    reveal_strlit("0000000");
    reveal_strlit("00░ ░00");
    reveal_strlit("00░░░00");
    reveal_strlit("00░░░░░");
    reveal_strlit("██     ");
    reveal_strlit("██   ██");
    reveal_strlit("███████");
    reveal_strlit("░░░ ░00");
    if font == Font::Okay {
        if d1 == 0 && d2 == 1 {
            assert(digit_glyph(font, d1)[0][1] != digit_glyph(font, d2)[0][1]);
        } else if d1 == 0 && d2 == 2 {
            assert(digit_glyph(font, d1)[2][0] != digit_glyph(font, d2)[2][0]);
        } else if d1 == 0 && d2 == 3 {
            assert(digit_glyph(font, d1)[2][0] != digit_glyph(font, d2)[2][0]);
        } else if d1 == 0 && d2 == 4 {
            assert(digit_glyph(font, d1)[0][0] != digit_glyph(font, d2)[0][0]);
        } else if d1 == 0 && d2 == 5 {
            assert(digit_glyph(font, d1)[0][0] != digit_glyph(font, d2)[0][0]);
        } else if d1 == 0 && d2 == 6 {
            assert(digit_glyph(font, d1)[1][5] != digit_glyph(font, d2)[1][5]);
        } else if d1 == 0 && d2 == 7 {
            assert(digit_glyph(font, d1)[0][0] != digit_glyph(font, d2)[0][0]);
        } else if d1 == 0 && d2 == 8 {
            assert(digit_glyph(font, d1)[3][0] != digit_glyph(font, d2)[3][0]);
        } else if d1 == 0 && d2 == 9 {
            assert(digit_glyph(font, d1)[3][0] != digit_glyph(font, d2)[3][0]);
        } else if d1 == 1 && d2 == 0 {
            assert(digit_glyph(font, d1)[0][1] != digit_glyph(font, d2)[0][1]);
        } else if d1 == 1 && d2 == 2 {
            assert(digit_glyph(font, d1)[0][1] != digit_glyph(font, d2)[0][1]);
        } else if d1 == 1 && d2 == 3 {
            assert(digit_glyph(font, d1)[0][1] != digit_glyph(font, d2)[0][1]);
        } else if d1 == 1 && d2 == 4 {
            assert(digit_glyph(font, d1)[0][0] != digit_glyph(font, d2)[0][0]);
        } else if d1 == 1 && d2 == 5 {
            assert(digit_glyph(font, d1)[0][0] != digit_glyph(font, d2)[0][0]);
        } else if d1 == 1 && d2 == 6 {
            assert(digit_glyph(font, d1)[0][1] != digit_glyph(font, d2)[0][1]);
        } else if d1 == 1 && d2 == 7 {
            assert(digit_glyph(font, d1)[0][0] != digit_glyph(font, d2)[0][0]);
        } else if d1 == 1 && d2 == 8 {
            assert(digit_glyph(font, d1)[0][1] != digit_glyph(font, d2)[0][1]);
        } else if d1 == 1 && d2 == 9 {
            assert(digit_glyph(font, d1)[0][1] != digit_glyph(font, d2)[0][1]);
        } else if d1 == 2 && d2 == 0 {
            assert(digit_glyph(font, d1)[2][0] != digit_glyph(font, d2)[2][0]);
        } else if d1 == 2 && d2 == 1 {
            assert(digit_glyph(font, d1)[0][1] != digit_glyph(font, d2)[0][1]);
        } else if d1 == 2 && d2 == 3 {
            assert(digit_glyph(font, d1)[4][1] != digit_glyph(font, d2)[4][1]);
        } else if d1 == 2 && d2 == 4 {
            assert(digit_glyph(font, d1)[0][0] != digit_glyph(font, d2)[0][0]);
        } else if d1 == 2 && d2 == 5 {
            assert(digit_glyph(font, d1)[0][0] != digit_glyph(font, d2)[0][0]);
        } else if d1 == 2 && d2 == 6 {
            assert(digit_glyph(font, d1)[1][5] != digit_glyph(font, d2)[1][5]);
        } else if d1 == 2 && d2 == 7 {
            assert(digit_glyph(font, d1)[0][0] != digit_glyph(font, d2)[0][0]);
        } else if d1 == 2 && d2 == 8 {
            assert(digit_glyph(font, d1)[2][0] != digit_glyph(font, d2)[2][0]);
        } else if d1 == 2 && d2 == 9 {
            assert(digit_glyph(font, d1)[2][0] != digit_glyph(font, d2)[2][0]);
        } else if d1 == 3 && d2 == 0 {
            assert(digit_glyph(font, d1)[2][0] != digit_glyph(font, d2)[2][0]);
        } else if d1 == 3 && d2 == 1 {
            assert(digit_glyph(font, d1)[0][1] != digit_glyph(font, d2)[0][1]);
        } else if d1 == 3 && d2 == 2 {
            assert(digit_glyph(font, d1)[4][1] != digit_glyph(font, d2)[4][1]);
        } else if d1 == 3 && d2 == 4 {
            assert(digit_glyph(font, d1)[0][0] != digit_glyph(font, d2)[0][0]);
        } else if d1 == 3 && d2 == 5 {
            assert(digit_glyph(font, d1)[0][0] != digit_glyph(font, d2)[0][0]);
        } else if d1 == 3 && d2 == 6 {
            assert(digit_glyph(font, d1)[1][5] != digit_glyph(font, d2)[1][5]);
        } else if d1 == 3 && d2 == 7 {
            assert(digit_glyph(font, d1)[0][0] != digit_glyph(font, d2)[0][0]);
        } else if d1 == 3 && d2 == 8 {
            assert(digit_glyph(font, d1)[2][0] != digit_glyph(font, d2)[2][0]);
        } else if d1 == 3 && d2 == 9 {
            assert(digit_glyph(font, d1)[2][0] != digit_glyph(font, d2)[2][0]);
        } else if d1 == 4 && d2 == 0 {
            assert(digit_glyph(font, d1)[0][0] != digit_glyph(font, d2)[0][0]);
        } else if d1 == 4 && d2 == 1 {
            assert(digit_glyph(font, d1)[0][0] != digit_glyph(font, d2)[0][0]);
        } else if d1 == 4 && d2 == 2 {
            assert(digit_glyph(font, d1)[0][0] != digit_glyph(font, d2)[0][0]);
        } else if d1 == 4 && d2 == 3 {
            assert(digit_glyph(font, d1)[0][0] != digit_glyph(font, d2)[0][0]);
        } else if d1 == 4 && d2 == 5 {
            assert(digit_glyph(font, d1)[0][2] != digit_glyph(font, d2)[0][2]);
        } else if d1 == 4 && d2 == 6 {
            assert(digit_glyph(font, d1)[0][0] != digit_glyph(font, d2)[0][0]);
        } else if d1 == 4 && d2 == 7 {
            assert(digit_glyph(font, d1)[0][2] != digit_glyph(font, d2)[0][2]);
        } else if d1 == 4 && d2 == 8 {
            assert(digit_glyph(font, d1)[0][0] != digit_glyph(font, d2)[0][0]);
        } else if d1 == 4 && d2 == 9 {
            assert(digit_glyph(font, d1)[0][0] != digit_glyph(font, d2)[0][0]);
        } else if d1 == 5 && d2 == 0 {
            assert(digit_glyph(font, d1)[0][0] != digit_glyph(font, d2)[0][0]);
        } else if d1 == 5 && d2 == 1 {
            assert(digit_glyph(font, d1)[0][0] != digit_glyph(font, d2)[0][0]);
        } else if d1 == 5 && d2 == 2 {
            assert(digit_glyph(font, d1)[0][0] != digit_glyph(font, d2)[0][0]);
        } else if d1 == 5 && d2 == 3 {
            assert(digit_glyph(font, d1)[0][0] != digit_glyph(font, d2)[0][0]);
        } else if d1 == 5 && d2 == 4 {
            assert(digit_glyph(font, d1)[0][2] != digit_glyph(font, d2)[0][2]);
        } else if d1 == 5 && d2 == 6 {
            assert(digit_glyph(font, d1)[0][0] != digit_glyph(font, d2)[0][0]);
        } else if d1 == 5 && d2 == 7 {
            assert(digit_glyph(font, d1)[1][0] != digit_glyph(font, d2)[1][0]);
        } else if d1 == 5 && d2 == 8 {
            assert(digit_glyph(font, d1)[0][0] != digit_glyph(font, d2)[0][0]);
        } else if d1 == 5 && d2 == 9 {
            assert(digit_glyph(font, d1)[0][0] != digit_glyph(font, d2)[0][0]);
        } else if d1 == 6 && d2 == 0 {
            assert(digit_glyph(font, d1)[1][5] != digit_glyph(font, d2)[1][5]);
        } else if d1 == 6 && d2 == 1 {
            assert(digit_glyph(font, d1)[0][1] != digit_glyph(font, d2)[0][1]);
        } else if d1 == 6 && d2 == 2 {
            assert(digit_glyph(font, d1)[1][5] != digit_glyph(font, d2)[1][5]);
        } else if d1 == 6 && d2 == 3 {
            assert(digit_glyph(font, d1)[1][5] != digit_glyph(font, d2)[1][5]);
        } else if d1 == 6 && d2 == 4 {
            assert(digit_glyph(font, d1)[0][0] != digit_glyph(font, d2)[0][0]);
        } else if d1 == 6 && d2 == 5 {
            assert(digit_glyph(font, d1)[0][0] != digit_glyph(font, d2)[0][0]);
        } else if d1 == 6 && d2 == 7 {
            assert(digit_glyph(font, d1)[0][0] != digit_glyph(font, d2)[0][0]);
        } else if d1 == 6 && d2 == 8 {
            assert(digit_glyph(font, d1)[1][5] != digit_glyph(font, d2)[1][5]);
        } else if d1 == 6 && d2 == 9 {
            assert(digit_glyph(font, d1)[1][5] != digit_glyph(font, d2)[1][5]);
        } else if d1 == 7 && d2 == 0 {
            assert(digit_glyph(font, d1)[0][0] != digit_glyph(font, d2)[0][0]);
        } else if d1 == 7 && d2 == 1 {
            assert(digit_glyph(font, d1)[0][0] != digit_glyph(font, d2)[0][0]);
        } else if d1 == 7 && d2 == 2 {
            assert(digit_glyph(font, d1)[0][0] != digit_glyph(font, d2)[0][0]);
        } else if d1 == 7 && d2 == 3 {
            assert(digit_glyph(font, d1)[0][0] != digit_glyph(font, d2)[0][0]);
        } else if d1 == 7 && d2 == 4 {
            assert(digit_glyph(font, d1)[0][2] != digit_glyph(font, d2)[0][2]);
        } else if d1 == 7 && d2 == 5 {
            assert(digit_glyph(font, d1)[1][0] != digit_glyph(font, d2)[1][0]);
        } else if d1 == 7 && d2 == 6 {
            assert(digit_glyph(font, d1)[0][0] != digit_glyph(font, d2)[0][0]);
        } else if d1 == 7 && d2 == 8 {
            assert(digit_glyph(font, d1)[0][0] != digit_glyph(font, d2)[0][0]);
        } else if d1 == 7 && d2 == 9 {
            assert(digit_glyph(font, d1)[0][0] != digit_glyph(font, d2)[0][0]);
        } else if d1 == 8 && d2 == 0 {
            assert(digit_glyph(font, d1)[3][0] != digit_glyph(font, d2)[3][0]);
        } else if d1 == 8 && d2 == 1 {
            assert(digit_glyph(font, d1)[0][1] != digit_glyph(font, d2)[0][1]);
        } else if d1 == 8 && d2 == 2 {
            assert(digit_glyph(font, d1)[2][0] != digit_glyph(font, d2)[2][0]);
        } else if d1 == 8 && d2 == 3 {
            assert(digit_glyph(font, d1)[2][0] != digit_glyph(font, d2)[2][0]);
        } else if d1 == 8 && d2 == 4 {
            assert(digit_glyph(font, d1)[0][0] != digit_glyph(font, d2)[0][0]);
        } else if d1 == 8 && d2 == 5 {
            assert(digit_glyph(font, d1)[0][0] != digit_glyph(font, d2)[0][0]);
        } else if d1 == 8 && d2 == 6 {
            assert(digit_glyph(font, d1)[1][5] != digit_glyph(font, d2)[1][5]);
        } else if d1 == 8 && d2 == 7 {
            assert(digit_glyph(font, d1)[0][0] != digit_glyph(font, d2)[0][0]);
        } else if d1 == 8 && d2 == 9 {
            assert(digit_glyph(font, d1)[3][6] != digit_glyph(font, d2)[3][6]);
        } else if d1 == 9 && d2 == 0 {
            assert(digit_glyph(font, d1)[3][0] != digit_glyph(font, d2)[3][0]);
        } else if d1 == 9 && d2 == 1 {
            assert(digit_glyph(font, d1)[0][1] != digit_glyph(font, d2)[0][1]);
        } else if d1 == 9 && d2 == 2 {
            assert(digit_glyph(font, d1)[2][0] != digit_glyph(font, d2)[2][0]);
        } else if d1 == 9 && d2 == 3 {
            assert(digit_glyph(font, d1)[2][0] != digit_glyph(font, d2)[2][0]);
        } else if d1 == 9 && d2 == 4 {
            assert(digit_glyph(font, d1)[0][0] != digit_glyph(font, d2)[0][0]);
        } else if d1 == 9 && d2 == 5 {
            assert(digit_glyph(font, d1)[0][0] != digit_glyph(font, d2)[0][0]);
        } else if d1 == 9 && d2 == 6 {
            assert(digit_glyph(font, d1)[1][5] != digit_glyph(font, d2)[1][5]);
        } else if d1 == 9 && d2 == 7 {
            assert(digit_glyph(font, d1)[0][0] != digit_glyph(font, d2)[0][0]);
        } else if d1 == 9 && d2 == 8 {
            assert(digit_glyph(font, d1)[3][6] != digit_glyph(font, d2)[3][6]);
        }
    }
    if font == Font::Ko {
        if d1 == 0 && d2 == 1 {
            assert(digit_glyph(font, d1)[0][1] != digit_glyph(font, d2)[0][1]);
        } else if d1 == 0 && d2 == 2 {
            assert(digit_glyph(font, d1)[2][0] != digit_glyph(font, d2)[2][0]);
        } else if d1 == 0 && d2 == 3 {
            assert(digit_glyph(font, d1)[2][0] != digit_glyph(font, d2)[2][0]);
        } else if d1 == 0 && d2 == 4 {
            assert(digit_glyph(font, d1)[0][0] != digit_glyph(font, d2)[0][0]);
        } else if d1 == 0 && d2 == 5 {
            assert(digit_glyph(font, d1)[0][0] != digit_glyph(font, d2)[0][0]);
        } else if d1 == 0 && d2 == 6 {
            assert(digit_glyph(font, d1)[1][5] != digit_glyph(font, d2)[1][5]);
        } else if d1 == 0 && d2 == 7 {
            assert(digit_glyph(font, d1)[0][0] != digit_glyph(font, d2)[0][0]);
        } else if d1 == 0 && d2 == 8 {
            assert(digit_glyph(font, d1)[1][3] != digit_glyph(font, d2)[1][3]);
        } else if d1 == 0 && d2 == 9 {
            assert(digit_glyph(font, d1)[1][3] != digit_glyph(font, d2)[1][3]);
        } else if d1 == 1 && d2 == 0 {
            assert(digit_glyph(font, d1)[0][1] != digit_glyph(font, d2)[0][1]);
        } else if d1 == 1 && d2 == 2 {
            assert(digit_glyph(font, d1)[0][1] != digit_glyph(font, d2)[0][1]);
        } else if d1 == 1 && d2 == 3 {
            assert(digit_glyph(font, d1)[0][1] != digit_glyph(font, d2)[0][1]);
        } else if d1 == 1 && d2 == 4 {
            assert(digit_glyph(font, d1)[0][0] != digit_glyph(font, d2)[0][0]);
        } else if d1 == 1 && d2 == 5 {
            assert(digit_glyph(font, d1)[0][0] != digit_glyph(font, d2)[0][0]);
        } else if d1 == 1 && d2 == 6 {
            assert(digit_glyph(font, d1)[0][1] != digit_glyph(font, d2)[0][1]);
        } else if d1 == 1 && d2 == 7 {
            assert(digit_glyph(font, d1)[0][0] != digit_glyph(font, d2)[0][0]);
        } else if d1 == 1 && d2 == 8 {
            assert(digit_glyph(font, d1)[0][1] != digit_glyph(font, d2)[0][1]);
        } else if d1 == 1 && d2 == 9 {
            assert(digit_glyph(font, d1)[0][1] != digit_glyph(font, d2)[0][1]);
        } else if d1 == 2 && d2 == 0 {
            assert(digit_glyph(font, d1)[2][0] != digit_glyph(font, d2)[2][0]);
        } else if d1 == 2 && d2 == 1 {
            assert(digit_glyph(font, d1)[0][1] != digit_glyph(font, d2)[0][1]);
        } else if d1 == 2 && d2 == 3 {
            assert(digit_glyph(font, d1)[3][5] != digit_glyph(font, d2)[3][5]);
        } else if d1 == 2 && d2 == 4 {
            assert(digit_glyph(font, d1)[0][0] != digit_glyph(font, d2)[0][0]);
        } else if d1 == 2 && d2 == 5 {
            assert(digit_glyph(font, d1)[0][0] != digit_glyph(font, d2)[0][0]);
        } else if d1 == 2 && d2 == 6 {
            assert(digit_glyph(font, d1)[1][5] != digit_glyph(font, d2)[1][5]);
        } else if d1 == 2 && d2 == 7 {
            assert(digit_glyph(font, d1)[0][0] != digit_glyph(font, d2)[0][0]);
        } else if d1 == 2 && d2 == 8 {
            assert(digit_glyph(font, d1)[1][3] != digit_glyph(font, d2)[1][3]);
        } else if d1 == 2 && d2 == 9 {
            assert(digit_glyph(font, d1)[1][3] != digit_glyph(font, d2)[1][3]);
        } else if d1 == 3 && d2 == 0 {
            assert(digit_glyph(font, d1)[2][0] != digit_glyph(font, d2)[2][0]);
        } else if d1 == 3 && d2 == 1 {
            assert(digit_glyph(font, d1)[0][1] != digit_glyph(font, d2)[0][1]);
        } else if d1 == 3 && d2 == 2 {
            assert(digit_glyph(font, d1)[3][5] != digit_glyph(font, d2)[3][5]);
        } else if d1 == 3 && d2 == 4 {
            assert(digit_glyph(font, d1)[0][0] != digit_glyph(font, d2)[0][0]);
        } else if d1 == 3 && d2 == 5 {
            assert(digit_glyph(font, d1)[0][0] != digit_glyph(font, d2)[0][0]);
        } else if d1 == 3 && d2 == 6 {
            assert(digit_glyph(font, d1)[1][5] != digit_glyph(font, d2)[1][5]);
        } else if d1 == 3 && d2 == 7 {
            assert(digit_glyph(font, d1)[0][0] != digit_glyph(font, d2)[0][0]);
        } else if d1 == 3 && d2 == 8 {
            assert(digit_glyph(font, d1)[1][3] != digit_glyph(font, d2)[1][3]);
        } else if d1 == 3 && d2 == 9 {
            assert(digit_glyph(font, d1)[1][3] != digit_glyph(font, d2)[1][3]);
        } else if d1 == 4 && d2 == 0 {
            assert(digit_glyph(font, d1)[0][0] != digit_glyph(font, d2)[0][0]);
        } else if d1 == 4 && d2 == 1 {
            assert(digit_glyph(font, d1)[0][0] != digit_glyph(font, d2)[0][0]);
        } else if d1 == 4 && d2 == 2 {
            assert(digit_glyph(font, d1)[0][0] != digit_glyph(font, d2)[0][0]);
        } else if d1 == 4 && d2 == 3 {
            assert(digit_glyph(font, d1)[0][0] != digit_glyph(font, d2)[0][0]);
        } else if d1 == 4 && d2 == 5 {
            assert(digit_glyph(font, d1)[0][2] != digit_glyph(font, d2)[0][2]);
        } else if d1 == 4 && d2 == 6 {
            assert(digit_glyph(font, d1)[0][0] != digit_glyph(font, d2)[0][0]);
        } else if d1 == 4 && d2 == 7 {
            assert(digit_glyph(font, d1)[0][2] != digit_glyph(font, d2)[0][2]);
        } else if d1 == 4 && d2 == 8 {
            assert(digit_glyph(font, d1)[0][0] != digit_glyph(font, d2)[0][0]);
        } else if d1 == 4 && d2 == 9 {
            assert(digit_glyph(font, d1)[0][0] != digit_glyph(font, d2)[0][0]);
        } else if d1 == 5 && d2 == 0 {
            assert(digit_glyph(font, d1)[0][0] != digit_glyph(font, d2)[0][0]);
        } else if d1 == 5 && d2 == 1 {
            assert(digit_glyph(font, d1)[0][0] != digit_glyph(font, d2)[0][0]);
        } else if d1 == 5 && d2 == 2 {
            assert(digit_glyph(font, d1)[0][0] != digit_glyph(font, d2)[0][0]);
        } else if d1 == 5 && d2 == 3 {
            assert(digit_glyph(font, d1)[0][0] != digit_glyph(font, d2)[0][0]);
        } else if d1 == 5 && d2 == 4 {
            assert(digit_glyph(font, d1)[0][2] != digit_glyph(font, d2)[0][2]);
        } else if d1 == 5 && d2 == 6 {
            assert(digit_glyph(font, d1)[0][0] != digit_glyph(font, d2)[0][0]);
        } else if d1 == 5 && d2 == 7 {
            assert(digit_glyph(font, d1)[1][0] != digit_glyph(font, d2)[1][0]);
        } else if d1 == 5 && d2 == 8 {
            assert(digit_glyph(font, d1)[0][0] != digit_glyph(font, d2)[0][0]);
        } else if d1 == 5 && d2 == 9 {
            assert(digit_glyph(font, d1)[0][0] != digit_glyph(font, d2)[0][0]);
        } else if d1 == 6 && d2 == 0 {
            assert(digit_glyph(font, d1)[1][5] != digit_glyph(font, d2)[1][5]);
        } else if d1 == 6 && d2 == 1 {
            assert(digit_glyph(font, d1)[0][1] != digit_glyph(font, d2)[0][1]);
        } else if d1 == 6 && d2 == 2 {
            assert(digit_glyph(font, d1)[1][5] != digit_glyph(font, d2)[1][5]);
        } else if d1 == 6 && d2 == 3 {
            assert(digit_glyph(font, d1)[1][5] != digit_glyph(font, d2)[1][5]);
        } else if d1 == 6 && d2 == 4 {
            assert(digit_glyph(font, d1)[0][0] != digit_glyph(font, d2)[0][0]);
        } else if d1 == 6 && d2 == 5 {
            assert(digit_glyph(font, d1)[0][0] != digit_glyph(font, d2)[0][0]);
        } else if d1 == 6 && d2 == 7 {
            assert(digit_glyph(font, d1)[0][0] != digit_glyph(font, d2)[0][0]);
        } else if d1 == 6 && d2 == 8 {
            assert(digit_glyph(font, d1)[1][3] != digit_glyph(font, d2)[1][3]);
        } else if d1 == 6 && d2 == 9 {
            assert(digit_glyph(font, d1)[1][3] != digit_glyph(font, d2)[1][3]);
        } else if d1 == 7 && d2 == 0 {
            assert(digit_glyph(font, d1)[0][0] != digit_glyph(font, d2)[0][0]);
        } else if d1 == 7 && d2 == 1 {
            assert(digit_glyph(font, d1)[0][0] != digit_glyph(font, d2)[0][0]);
        } else if d1 == 7 && d2 == 2 {
            assert(digit_glyph(font, d1)[0][0] != digit_glyph(font, d2)[0][0]);
        } else if d1 == 7 && d2 == 3 {
            assert(digit_glyph(font, d1)[0][0] != digit_glyph(font, d2)[0][0]);
        } else if d1 == 7 && d2 == 4 {
            assert(digit_glyph(font, d1)[0][2] != digit_glyph(font, d2)[0][2]);
        } else if d1 == 7 && d2 == 5 {
            assert(digit_glyph(font, d1)[1][0] != digit_glyph(font, d2)[1][0]);
        } else if d1 == 7 && d2 == 6 {
            assert(digit_glyph(font, d1)[0][0] != digit_glyph(font, d2)[0][0]);
        } else if d1 == 7 && d2 == 8 {
            assert(digit_glyph(font, d1)[0][0] != digit_glyph(font, d2)[0][0]);
        } else if d1 == 7 && d2 == 9 {
            assert(digit_glyph(font, d1)[0][0] != digit_glyph(font, d2)[0][0]);
        } else if d1 == 8 && d2 == 0 {
            assert(digit_glyph(font, d1)[1][3] != digit_glyph(font, d2)[1][3]);
        } else if d1 == 8 && d2 == 1 {
            assert(digit_glyph(font, d1)[0][1] != digit_glyph(font, d2)[0][1]);
        } else if d1 == 8 && d2 == 2 {
            assert(digit_glyph(font, d1)[1][3] != digit_glyph(font, d2)[1][3]);
        } else if d1 == 8 && d2 == 3 {
            assert(digit_glyph(font, d1)[1][3] != digit_glyph(font, d2)[1][3]);
        } else if d1 == 8 && d2 == 4 {
            assert(digit_glyph(font, d1)[0][0] != digit_glyph(font, d2)[0][0]);
        } else if d1 == 8 && d2 == 5 {
            assert(digit_glyph(font, d1)[0][0] != digit_glyph(font, d2)[0][0]);
        } else if d1 == 8 && d2 == 6 {
            assert(digit_glyph(font, d1)[1][3] != digit_glyph(font, d2)[1][3]);
        } else if d1 == 8 && d2 == 7 {
            assert(digit_glyph(font, d1)[0][0] != digit_glyph(font, d2)[0][0]);
        } else if d1 == 8 && d2 == 9 {
            assert(digit_glyph(font, d1)[3][6] != digit_glyph(font, d2)[3][6]);
        } else if d1 == 9 && d2 == 0 {
            assert(digit_glyph(font, d1)[1][3] != digit_glyph(font, d2)[1][3]);
        } else if d1 == 9 && d2 == 1 {
            assert(digit_glyph(font, d1)[0][1] != digit_glyph(font, d2)[0][1]);
        } else if d1 == 9 && d2 == 2 {
            assert(digit_glyph(font, d1)[1][3] != digit_glyph(font, d2)[1][3]);
        } else if d1 == 9 && d2 == 3 {
            assert(digit_glyph(font, d1)[1][3] != digit_glyph(font, d2)[1][3]);
        } else if d1 == 9 && d2 == 4 {
            assert(digit_glyph(font, d1)[0][0] != digit_glyph(font, d2)[0][0]);
        } else if d1 == 9 && d2 == 5 {
            assert(digit_glyph(font, d1)[0][0] != digit_glyph(font, d2)[0][0]);
        } else if d1 == 9 && d2 == 6 {
            assert(digit_glyph(font, d1)[1][3] != digit_glyph(font, d2)[1][3]);
        } else if d1 == 9 && d2 == 7 {
            assert(digit_glyph(font, d1)[0][0] != digit_glyph(font, d2)[0][0]);
        } else if d1 == 9 && d2 == 8 {
            assert(digit_glyph(font, d1)[3][6] != digit_glyph(font, d2)[3][6]);
        }
    }
}

/// Each character of a banner shows its own glyph, left to right: the
/// glyph of `cs[i]` stands right after the glyphs of the characters before
/// it and one blank column.
pub proof fn law_banner_places_glyphs(cs: Seq<char>, font: Font, r: int, i: int)
    requires
        0 <= r < ROWS,
        0 <= i < cs.len(),
    ensures
        ({
            let start = banner_width(cs.take(i)) + if i > 0 { 1int } else { 0int };
            &&& start + glyph_width(cs[i]) <= big_line(cs, font, r).len()
            &&& big_line(cs, font, r).subrange(start, start + glyph_width(cs[i])) == glyph_row(font, cs[i], r)
            &&& i > 0 ==> big_line(cs, font, r)[start - 1] == ' '
        }),
    decreases cs.len(),
{
    law_banner_rows_have_equal_width(cs, font, r);
    lemma_glyph_row_width(font, cs[i], r);
    if cs.len() == 1 {
        assert(cs.take(0) =~= Seq::<char>::empty());
        assert(big_line(cs, font, r).subrange(0, glyph_width(cs[0]) as int) =~= glyph_row(font, cs[0], r));
    } else {
        let rest = cs.drop_last();
        let head = big_line(rest, font, r);
        law_banner_rows_have_equal_width(rest, font, r);
        let line = big_line(cs, font, r);
        assert(line == head + seq![' '] + glyph_row(font, cs.last(), r));
        if i < cs.len() - 1 {
            law_banner_places_glyphs(rest, font, r, i);
            assert(rest.take(i) =~= cs.take(i));
            assert(rest[i] == cs[i]);
            let start = banner_width(cs.take(i)) + if i > 0 { 1int } else { 0int };
            assert(line.subrange(start, start + glyph_width(cs[i])) =~= head.subrange(start, start + glyph_width(cs[i])));
            if i > 0 {
                assert(line[start - 1] == head[start - 1]);
            }
        } else {
            assert(cs.take(i) =~= rest);
            let start = banner_width(rest) as int + 1;
            assert(line.subrange(start, start + glyph_width(cs[i])) =~= glyph_row(font, cs.last(), r));
        }
    }
}

} // verus!
