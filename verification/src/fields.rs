//! Field classifiers: pure mappings from one whitespace-delimited token to a
//! domain value.  Token extraction is the clip line parser's job; these
//! functions judge a whole token.

use vstd::prelude::*;
use crate::ast::EdlError;
use crate::ast::EditChannels;
use crate::ast::EditType;
use crate::ast::Reel;
use crate::scan::is_digit;
use crate::scan::subvec;

verus! {

/// Numeric value of an ASCII digit.
pub open spec fn digit_val(c: u8) -> int {
    c - 48
}

/// Value of a three-digit token, read positionally.
pub open spec fn index_val(s: Seq<u8>) -> int
    recommends
        s.len() == 3,
{
    digit_val(s[0]) * 100 + digit_val(s[1]) * 10 + digit_val(s[2])
}

/// An index token: exactly three decimal digits naming a value in 1..=999.
pub open spec fn is_index_token(s: Seq<u8>) -> bool {
    s.len() == 3 && is_digit(s[0]) && is_digit(s[1]) && is_digit(s[2]) && index_val(s) >= 1
}

/// Reads a three-digit token as an index in 1..=999.
pub(crate) fn read_index(t: &Vec<u8>) -> (r: Option<u16>)
    ensures
        match r {
            Some(v) => is_index_token(t@) && v == index_val(t@),
            None => !is_index_token(t@),
        },
{
    if t.len() != 3 {
        return None;
    }
    let d0 = t[0];
    let d1 = t[1];
    let d2 = t[2];
    if 48 <= d0 && d0 <= 57 && 48 <= d1 && d1 <= 57 && 48 <= d2 && d2 <= 57 {
        let v: u16 = (d0 - 48) as u16 * 100 + (d1 - 48) as u16 * 10 + (d2 - 48) as u16;
        if v >= 1 {
            Some(v)
        } else {
            None
        }
    } else {
        None
    }
}

/// Reads an edit's sequence number: exactly three decimal digits naming a
/// value in 1..=999; any other token is rejected.
pub fn parse_edit_index(t: &Vec<u8>) -> (r: Result<u16, EdlError>)
    ensures
        match r {
            Ok(v) => is_index_token(t@) && v == index_val(t@),
            Err(e) => !is_index_token(t@) && e == EdlError::InvalidEditIndex,
        },
{
    match read_index(t) {
        Some(v) => Ok(v),
        None => Err(EdlError::InvalidEditIndex),
    }
}

/// The reel value a token names, if any: an index token followed by `b` or
/// `B` is a numbered reel (B-roll exactly when the marker is the lower-case
/// `b`); the literal tokens `BL` and `AX` both name the black source.
pub open spec fn spec_reel(s: Seq<u8>) -> Option<Reel> {
    if s.len() == 4 && is_index_token(s.subrange(0, 3)) && (s[3] == 98 || s[3] == 66) {
        Some(Reel::Index { index: index_val(s.subrange(0, 3)) as u16, is_b_roll: s[3] == 98 })
    } else if s.len() == 2 && s[0] == 66 && s[1] == 76 {
        Some(Reel::Black)
    } else if s.len() == 2 && s[0] == 65 && s[1] == 88 {
        Some(Reel::Black)
    } else {
        None
    }
}

/// Classifies a reel token.
pub fn parse_reel(t: &Vec<u8>) -> (r: Result<Reel, EdlError>)
    ensures
        match r {
            Ok(v) => spec_reel(t@) == Some(v),
            Err(e) => spec_reel(t@) is None && e == EdlError::InvalidReel,
        },
{
    if t.len() == 4 && (t[3] == 98 || t[3] == 66) {
        let head = subvec(t, 0, 3);
        match read_index(&head) {
            Some(v) => Ok(Reel::Index { index: v, is_b_roll: t[3] == 98 }),
            None => Err(EdlError::InvalidReel),
        }
    } else if t.len() == 2 && t[0] == 66 && t[1] == 76 {
        Ok(Reel::Black)
    } else if t.len() == 2 && t[0] == 65 && t[1] == 88 {
        Ok(Reel::Black)
    } else {
        Err(EdlError::InvalidReel)
    }
}

/// The channel set a token names, if any: one of the seven literal tokens
/// `A`, `B`, `V`, `A2`, `A2/V`, `AA`, `AA/V`.
pub open spec fn spec_channels(s: Seq<u8>) -> Option<EditChannels> {
    if s.len() == 1 && s[0] == 65 {
        Some(EditChannels::Audio1)
    } else if s.len() == 1 && s[0] == 66 {
        Some(EditChannels::Audio1Video)
    } else if s.len() == 1 && s[0] == 86 {
        Some(EditChannels::Video)
    } else if s.len() == 2 && s[0] == 65 && s[1] == 50 {
        Some(EditChannels::Audio2)
    } else if s.len() == 4 && s[0] == 65 && s[1] == 50 && s[2] == 47 && s[3] == 86 {
        Some(EditChannels::Audio2Video)
    } else if s.len() == 2 && s[0] == 65 && s[1] == 65 {
        Some(EditChannels::Audio1Audio2)
    } else if s.len() == 4 && s[0] == 65 && s[1] == 65 && s[2] == 47 && s[3] == 86 {
        Some(EditChannels::Audio1Audio2Video)
    } else {
        None
    }
}

/// Classifies a channel token by exact match against the seven literals.
pub fn parse_edit_channels(t: &Vec<u8>) -> (r: Result<EditChannels, EdlError>)
    ensures
        match r {
            Ok(v) => spec_channels(t@) == Some(v),
            Err(e) => spec_channels(t@) is None && e == EdlError::InvalidChannels,
        },
{
    if t.len() == 1 && t[0] == 65 {
        Ok(EditChannels::Audio1)
    } else if t.len() == 1 && t[0] == 66 {
        Ok(EditChannels::Audio1Video)
    } else if t.len() == 1 && t[0] == 86 {
        Ok(EditChannels::Video)
    } else if t.len() == 2 && t[0] == 65 && t[1] == 50 {
        Ok(EditChannels::Audio2)
    } else if t.len() == 4 && t[0] == 65 && t[1] == 50 && t[2] == 47 && t[3] == 86 {
        Ok(EditChannels::Audio2Video)
    } else if t.len() == 2 && t[0] == 65 && t[1] == 65 {
        Ok(EditChannels::Audio1Audio2)
    } else if t.len() == 4 && t[0] == 65 && t[1] == 65 && t[2] == 47 && t[3] == 86 {
        Ok(EditChannels::Audio1Audio2Video)
    } else {
        Err(EdlError::InvalidChannels)
    }
}

/// The edit type a token names, if any.  The first character selects the
/// variant: `C` is a cut, `D` a dissolve, `W` a wipe whose remaining
/// characters must form an index token, and `K` a key (foreground when the
/// token is `K` alone, background when a `B` follows, removal when an `O`
/// follows).
pub open spec fn spec_edit_type(s: Seq<u8>) -> Option<EditType> {
    if s.len() == 0 {
        None
    } else if s[0] == 67 {
        Some(EditType::Cut)
    } else if s[0] == 68 {
        Some(EditType::Dissolve)
    } else if s[0] == 87 {
        if is_index_token(s.subrange(1, s.len() as int)) {
            Some(EditType::Wipe(index_val(s.subrange(1, s.len() as int)) as u16))
        } else {
            None
        }
    } else if s[0] == 75 {
        if s.len() == 1 {
            Some(EditType::KeyForeground)
        } else if s[1] == 66 {
            Some(EditType::KeyBackground)
        } else if s[1] == 79 {
            Some(EditType::KRemoveFromForeground)
        } else {
            None
        }
    } else {
        None
    }
}

/// Classifies an edit-type token.
pub fn parse_edit_type(t: &Vec<u8>) -> (r: Result<EditType, EdlError>)
    ensures
        match r {
            Ok(v) => spec_edit_type(t@) == Some(v),
            Err(e) => spec_edit_type(t@) is None && e == EdlError::InvalidEditType,
        },
{
    if t.len() == 0 {
        Err(EdlError::InvalidEditType)
    } else if t[0] == 67 {
        Ok(EditType::Cut)
    } else if t[0] == 68 {
        Ok(EditType::Dissolve)
    } else if t[0] == 87 {
        let rest = subvec(t, 1, t.len());
        match read_index(&rest) {
            Some(v) => Ok(EditType::Wipe(v)),
            None => Err(EdlError::InvalidEditType),
        }
    } else if t[0] == 75 {
        if t.len() == 1 {
            Ok(EditType::KeyForeground)
        } else if t[1] == 66 {
            Ok(EditType::KeyBackground)
        } else if t[1] == 79 {
            Ok(EditType::KRemoveFromForeground)
        } else {
            Err(EdlError::InvalidEditType)
        }
    } else {
        Err(EdlError::InvalidEditType)
    }
}

} // verus!
