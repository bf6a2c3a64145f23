//! The timecode parser: a whole token of the shape `HH:MM:SS:FF`, each group
//! exactly two decimal digits, with hours at most 23, minutes and seconds at
//! most 59 and frames at most 29.

use vstd::prelude::*;
use crate::ast::EdlError;
use crate::ast::TimeCode;
use crate::ast::TimecodeField;
use crate::scan::is_digit;
use crate::fields::digit_val;

verus! {

/// First position at or after `pos` in the token holding a colon, or the
/// token's length when there is none.
pub open spec fn colon_end(s: Seq<u8>, pos: int) -> int
    decreases s.len() - pos,
{
    if pos < 0 || pos >= s.len() {
        pos
    } else if s[pos] != 58 {
        colon_end(s, pos + 1)
    } else {
        pos
    }
}

pub proof fn lemma_colon_end(s: Seq<u8>, pos: int)
    requires
        0 <= pos <= s.len(),
    ensures
        pos <= colon_end(s, pos) <= s.len(),
        colon_end(s, pos) < s.len() ==> s[colon_end(s, pos)] == 58,
    decreases s.len() - pos,
{
    if pos < s.len() && s[pos] != 58 {
        lemma_colon_end(s, pos + 1);
    }
}

/// Value of a two-digit group, read positionally.
pub open spec fn elem_val(g: Seq<u8>) -> int
    recommends
        g.len() == 2,
{
    digit_val(g[0]) * 10 + digit_val(g[1])
}

/// A group is acceptable when it is exactly two decimal digits naming a
/// value of at most `max`.
pub open spec fn elem_ok(g: Seq<u8>, max: u8) -> bool {
    g.len() == 2 && is_digit(g[0]) && is_digit(g[1]) && elem_val(g) <= max
}

/// The value reported for a rejected group: its numeric value when it is two
/// decimal digits (a range violation), and 0 when it is malformed.
pub open spec fn elem_err_val(g: Seq<u8>) -> u8 {
    if g.len() == 2 && is_digit(g[0]) && is_digit(g[1]) {
        elem_val(g) as u8
    } else {
        0
    }
}

/// The result of reading a whole token as a timecode.  Groups are cut at
/// colons; the frames group is everything after the third colon.  The first
/// unacceptable group decides the error: its field, reported value and
/// ceiling.  A missing group is reported as a malformed next field.
pub open spec fn spec_timecode(s: Seq<u8>) -> Result<TimeCode, EdlError> {
    let e1 = colon_end(s, 0);
    let g1 = s.subrange(0, e1);
    if !elem_ok(g1, 23) {
        Err(EdlError::InvalidTimecodeField {
            field: TimecodeField::Hours,
            value: elem_err_val(g1),
            max: 23,
        })
    } else if e1 >= s.len() {
        Err(EdlError::InvalidTimecodeField { field: TimecodeField::Minutes, value: 0, max: 59 })
    } else {
        let e2 = colon_end(s, e1 + 1);
        let g2 = s.subrange(e1 + 1, e2);
        if !elem_ok(g2, 59) {
            Err(EdlError::InvalidTimecodeField {
                field: TimecodeField::Minutes,
                value: elem_err_val(g2),
                max: 59,
            })
        } else if e2 >= s.len() {
            Err(EdlError::InvalidTimecodeField { field: TimecodeField::Seconds, value: 0, max: 59 })
        } else {
            let e3 = colon_end(s, e2 + 1);
            let g3 = s.subrange(e2 + 1, e3);
            if !elem_ok(g3, 59) {
                Err(EdlError::InvalidTimecodeField {
                    field: TimecodeField::Seconds,
                    value: elem_err_val(g3),
                    max: 59,
                })
            } else if e3 >= s.len() {
                Err(EdlError::InvalidTimecodeField {
                    field: TimecodeField::Frames,
                    value: 0,
                    max: 29,
                })
            } else {
                let g4 = s.subrange(e3 + 1, s.len() as int);
                if !elem_ok(g4, 29) {
                    Err(EdlError::InvalidTimecodeField {
                        field: TimecodeField::Frames,
                        value: elem_err_val(g4),
                        max: 29,
                    })
                } else {
                    Ok(TimeCode {
                        hours: elem_val(g1) as u8,
                        minutes: elem_val(g2) as u8,
                        seconds: elem_val(g3) as u8,
                        frames: elem_val(g4) as u8,
                    })
                }
            }
        }
    }
}

/// An accepted timecode has every field within its ceiling.
pub proof fn lemma_timecode_wf(s: Seq<u8>)
    ensures
        spec_timecode(s) matches Ok(t) ==> crate::ast::timecode_wf(t),
{
}

/// Finds the end of the group starting at `pos`: the next colon or the
/// token's end.
fn colon_scan(t: &Vec<u8>, pos: usize) -> (r: usize)
    requires
        pos <= t@.len(),
    ensures
        r == colon_end(t@, pos as int),
        pos <= r <= t@.len(),
{
    let mut i: usize = pos;
    while i < t.len() && t[i] != 58
        invariant
            pos <= i <= t@.len(),
            colon_end(t@, pos as int) == colon_end(t@, i as int),
        decreases t@.len() - i,
    {
        i = i + 1;
    }
    i
}

/// Reads the group `t[lo..hi]` against the ceiling `max`; on rejection hands
/// back the value to report.
fn read_elem(t: &Vec<u8>, lo: usize, hi: usize, max: u8) -> (r: Result<u8, u8>)
    requires
        lo <= hi <= t@.len(),
    ensures
        match r {
            Ok(v) => elem_ok(t@.subrange(lo as int, hi as int), max) && v == elem_val(
                t@.subrange(lo as int, hi as int),
            ),
            Err(ev) => !elem_ok(t@.subrange(lo as int, hi as int), max) && ev == elem_err_val(
                t@.subrange(lo as int, hi as int),
            ),
        },
{
    proof {
        let g = t@.subrange(lo as int, hi as int);
        assert(g.len() == hi - lo);
        if hi - lo == 2 {
            assert(g[0] == t@[lo as int] && g[1] == t@[lo + 1]);
        }
    }
    if hi - lo == 2 {
        let d0 = t[lo];
        let d1 = t[lo + 1];
        if 48 <= d0 && d0 <= 57 && 48 <= d1 && d1 <= 57 {
            let v: u8 = (d0 - 48) * 10 + (d1 - 48);
            if v <= max {
                Ok(v)
            } else {
                Err(v)
            }
        } else {
            Err(0)
        }
    } else {
        Err(0)
    }
}

/// Reads a whole token as a timecode, validating each group's width and
/// range independently.
pub fn parse_timecode(t: &Vec<u8>) -> (r: Result<TimeCode, EdlError>)
    ensures
        r == spec_timecode(t@),
{
    let e1 = colon_scan(t, 0);
    let hours = match read_elem(t, 0, e1, 23) {
        Ok(v) => v,
        Err(ev) => {
            return Err(EdlError::InvalidTimecodeField {
                field: TimecodeField::Hours,
                value: ev,
                max: 23,
            });
        },
    };
    if e1 == t.len() {
        return Err(EdlError::InvalidTimecodeField {
            field: TimecodeField::Minutes,
            value: 0,
            max: 59,
        });
    }
    let e2 = colon_scan(t, e1 + 1);
    let minutes = match read_elem(t, e1 + 1, e2, 59) {
        Ok(v) => v,
        Err(ev) => {
            return Err(EdlError::InvalidTimecodeField {
                field: TimecodeField::Minutes,
                value: ev,
                max: 59,
            });
        },
    };
    if e2 == t.len() {
        return Err(EdlError::InvalidTimecodeField {
            field: TimecodeField::Seconds,
            value: 0,
            max: 59,
        });
    }
    let e3 = colon_scan(t, e2 + 1);
    let seconds = match read_elem(t, e2 + 1, e3, 59) {
        Ok(v) => v,
        Err(ev) => {
            return Err(EdlError::InvalidTimecodeField {
                field: TimecodeField::Seconds,
                value: ev,
                max: 59,
            });
        },
    };
    if e3 == t.len() {
        return Err(EdlError::InvalidTimecodeField {
            field: TimecodeField::Frames,
            value: 0,
            max: 29,
        });
    }
    let frames = match read_elem(t, e3 + 1, t.len(), 29) {
        Ok(v) => v,
        Err(ev) => {
            return Err(EdlError::InvalidTimecodeField {
                field: TimecodeField::Frames,
                value: ev,
                max: 29,
            });
        },
    };
    Ok(TimeCode { hours, minutes, seconds, frames })
}

} // verus!
