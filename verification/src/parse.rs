//! The line parsers and the document driver.  A document is a mandatory
//! title line followed by body lines; each body line is tried as a clip,
//! then as a frame-code-mode declaration, and otherwise captured verbatim
//! as a note.  An alternative that fails consumes nothing.

use vstd::prelude::*;
use crate::ast::Clip;
use crate::ast::DocModel;
use crate::ast::EdlError;
use crate::ast::EdlFile;
use crate::ast::FrameCodeModeChange;
use crate::ast::Line;
use crate::ast::LineModel;
use crate::ast::TimeCode;
use crate::fields::index_val;
use crate::fields::is_index_token;
use crate::fields::parse_edit_channels;
use crate::fields::parse_edit_index;
use crate::fields::parse_edit_type;
use crate::fields::parse_reel;
use crate::fields::read_index;
use crate::fields::spec_channels;
use crate::fields::spec_edit_type;
use crate::fields::spec_reel;
use crate::scan::find_line_end;
use crate::scan::find_token_end;
use crate::scan::hspace_end;
use crate::scan::is_line_ws;
use crate::scan::lemma_hspace_end;
use crate::scan::lemma_line_end;
use crate::scan::lemma_token_end;
use crate::scan::lemma_ws_end;
use crate::scan::line_end;
use crate::scan::matches_at;
use crate::scan::matches_bytes;
use crate::scan::skip_hspace;
use crate::scan::skip_trim_hi;
use crate::scan::skip_trim_lo;
use crate::scan::skip_ws;
use crate::scan::subvec;
use crate::scan::token_end;
use crate::scan::trim_hi;
use crate::scan::trim_lo;
use crate::scan::ws_end;
use crate::timecode::spec_timecode;
use crate::timecode::parse_timecode;

verus! {

/// The bytes of the mandatory header marker `TITLE:`.
pub open spec fn lit_title() -> Seq<u8> {
    seq![84u8, 73u8, 84u8, 76u8, 69u8, 58u8]
}

/// The bytes of the frame-code-mode marker `FCM:`.
pub open spec fn lit_fcm() -> Seq<u8> {
    seq![70u8, 67u8, 77u8, 58u8]
}

/// The bytes of the phrase `DROP FRAME`.
pub open spec fn lit_drop() -> Seq<u8> {
    seq![68u8, 82u8, 79u8, 80u8, 32u8, 70u8, 82u8, 65u8, 77u8, 69u8]
}

/// The bytes of the phrase `NON-DROP FRAME`.
pub open spec fn lit_non_drop() -> Seq<u8> {
    seq![78u8, 79u8, 78u8, 45u8, 68u8, 82u8, 79u8, 80u8, 32u8, 70u8, 82u8, 65u8, 77u8, 69u8]
}

fn lit_title_vec() -> (v: Vec<u8>)
    ensures
        v@ == lit_title(),
{
    let mut v: Vec<u8> = Vec::new();
    v.push(84);
    v.push(73);
    v.push(84);
    v.push(76);
    v.push(69);
    v.push(58);
    proof {
        assert(v@ =~= lit_title());
    }
    v
}

fn lit_fcm_vec() -> (v: Vec<u8>)
    ensures
        v@ == lit_fcm(),
{
    let mut v: Vec<u8> = Vec::new();
    v.push(70);
    v.push(67);
    v.push(77);
    v.push(58);
    proof {
        assert(v@ =~= lit_fcm());
    }
    v
}

fn lit_drop_vec() -> (v: Vec<u8>)
    ensures
        v@ == lit_drop(),
{
    let mut v: Vec<u8> = Vec::new();
    v.push(68);
    v.push(82);
    v.push(79);
    v.push(80);
    v.push(32);
    v.push(70);
    v.push(82);
    v.push(65);
    v.push(77);
    v.push(69);
    proof {
        assert(v@ =~= lit_drop());
    }
    v
}

fn lit_non_drop_vec() -> (v: Vec<u8>)
    ensures
        v@ == lit_non_drop(),
{
    let mut v: Vec<u8> = Vec::new();
    v.push(78);
    v.push(79);
    v.push(78);
    v.push(45);
    v.push(68);
    v.push(82);
    v.push(79);
    v.push(80);
    v.push(32);
    v.push(70);
    v.push(82);
    v.push(65);
    v.push(77);
    v.push(69);
    proof {
        assert(v@ =~= lit_non_drop());
    }
    v
}

/// What `String::from_utf8_lossy` yields on a byte sequence.  The result is
/// a function of the bytes alone.
pub uninterp spec fn lossy_of(b: Seq<u8>) -> Seq<char>;

/// Relies on `String::from_utf8_lossy`: the result depends on the bytes
/// alone, and bytes that are valid UTF-8 decode to exactly their scalar
/// values.
#[verifier::external_body]
fn utf8_lossy(b: &Vec<u8>) -> (r: String)
    ensures
        r@ == lossy_of(b@),
        vstd::utf8::valid_utf8(b@) ==> r@ == vstd::utf8::decode_utf8(b@),
{
    String::from_utf8_lossy(b.as_slice()).into_owned()
}

/// The result of the title parser: the position of the terminating newline
/// (left unconsumed) and the captured title bytes, trimmed of surrounding
/// whitespace.  The header marker must follow leading horizontal
/// whitespace; its absence is `MalformedHeader`, and a title line with no
/// newline at all is `UnexpectedEof`.
pub open spec fn spec_title(s: Seq<u8>) -> Result<(int, Seq<u8>), EdlError> {
    let p = hspace_end(s, 0);
    if !matches_at(s, p, lit_title()) {
        Err(EdlError::MalformedHeader)
    } else {
        let q = hspace_end(s, p + 6);
        let nl = line_end(s, q);
        if nl >= s.len() {
            Err(EdlError::UnexpectedEof)
        } else {
            let lo = trim_lo(s, q, nl);
            let hi = trim_hi(s, lo, nl);
            Ok((nl, s.subrange(lo, hi)))
        }
    }
}

/// Recognises the mandatory title line.  On success the returned position
/// is that of the line's newline, which stays unconsumed, and the title is
/// the text after the marker with surrounding whitespace removed.
pub fn parse_title(input: &Vec<u8>) -> (r: Result<(usize, String), EdlError>)
    ensures
        match r {
            Ok(pt) => spec_title(input@) matches Ok(v) && (v.0 == pt.0 as int && pt.1@ == lossy_of(
                v.1,
            ) && (vstd::utf8::valid_utf8(v.1) ==> pt.1@ == vstd::utf8::decode_utf8(v.1))
                && pt.0 < input@.len()),
            Err(e) => spec_title(input@) == Err::<(int, Seq<u8>), EdlError>(e),
        },
{
    let n = input.len();
    let p = skip_hspace(input, 0);
    let lit = lit_title_vec();
    if !matches_bytes(input, p, &lit) {
        return Err(EdlError::MalformedHeader);
    }
    proof {
        assert(lit_title().len() == 6);
    }
    let q = skip_hspace(input, p + 6);
    let nl = find_line_end(input, q);
    if nl == n {
        return Err(EdlError::UnexpectedEof);
    }
    let lo = skip_trim_lo(input, q, nl);
    let hi = skip_trim_hi(input, lo, nl);
    let bytes = subvec(input, lo, hi);
    let title = utf8_lossy(&bytes);
    Ok((nl, title))
}

/// The result of trying a frame-code-mode line at `pos`: the marker `FCM:`,
/// horizontal whitespace, then one of the two literal phrases, with
/// trailing horizontal whitespace consumed.  `None` when the line is no
/// such declaration; trying consumes nothing.
pub open spec fn spec_fcm(s: Seq<u8>, pos: int) -> Option<(int, FrameCodeModeChange)> {
    if !matches_at(s, pos, lit_fcm()) {
        None
    } else {
        let q = hspace_end(s, pos + 4);
        if matches_at(s, q, lit_drop()) {
            Some((hspace_end(s, q + 10), FrameCodeModeChange::DropFrame))
        } else if matches_at(s, q, lit_non_drop()) {
            Some((hspace_end(s, q + 14), FrameCodeModeChange::NonDropFrame))
        } else {
            None
        }
    }
}

/// Tries to recognise a frame-code-mode declaration at `pos`.
pub fn parse_fcm(input: &Vec<u8>, pos: usize) -> (r: Option<(usize, FrameCodeModeChange)>)
    requires
        pos <= input@.len(),
    ensures
        match r {
            Some(pm) => spec_fcm(input@, pos as int) == Some((pm.0 as int, pm.1)) && pos <= pm.0
                <= input@.len(),
            None => spec_fcm(input@, pos as int) is None,
        },
{
    let n = input.len();
    let lit = lit_fcm_vec();
    if !matches_bytes(input, pos, &lit) {
        return None;
    }
    proof {
        assert(n == input@.len());
    }
    proof {
        assert(lit_fcm().len() == 4);
    }
    let q = skip_hspace(input, pos + 4);
    let dlit = lit_drop_vec();
    if matches_bytes(input, q, &dlit) {
        proof {
            assert(lit_drop().len() == 10);
        }
        let after = skip_hspace(input, q + 10);
        return Some((after, FrameCodeModeChange::DropFrame));
    }
    let nlit = lit_non_drop_vec();
    if matches_bytes(input, q, &nlit) {
        proof {
            assert(lit_non_drop().len() == 14);
        }
        let after = skip_hspace(input, q + 14);
        return Some((after, FrameCodeModeChange::NonDropFrame));
    }
    None
}

/// The result of capturing a note at `pos`: the raw bytes up to the next
/// newline, which stays unconsumed.  A final line with no terminator is
/// `UnterminatedLine`.
pub open spec fn spec_note(s: Seq<u8>, pos: int) -> Result<(int, Seq<u8>), EdlError> {
    let nl = line_end(s, pos);
    if nl >= s.len() {
        Err(EdlError::UnterminatedLine)
    } else {
        Ok((nl, s.subrange(pos, nl)))
    }
}

/// Captures a note line verbatim up to its newline.
pub fn parse_notes(input: &Vec<u8>, pos: usize) -> (r: Result<(usize, Vec<u8>), EdlError>)
    requires
        pos <= input@.len(),
    ensures
        match r {
            Ok(pn) => spec_note(input@, pos as int) matches Ok(v) && (v.0 == pn.0 as int && pn.1@
                == v.1 && pos <= pn.0 < input@.len()),
            Err(e) => spec_note(input@, pos as int) == Err::<(int, Seq<u8>), EdlError>(e),
        },
{
    let nl = find_line_end(input, pos);
    if nl == input.len() {
        return Err(EdlError::UnterminatedLine);
    }
    let bytes = subvec(input, pos, nl);
    Ok((nl, bytes))
}

/// The result of reading one whitespace-preceded timecode token at `pos`:
/// the position after the token and its value, or the first field error.
pub open spec fn spec_tc_token(s: Seq<u8>, pos: int) -> Result<(int, TimeCode), EdlError> {
    let p = hspace_end(s, pos);
    let e = token_end(s, p);
    match spec_timecode(s.subrange(p, e)) {
        Ok(t) => Ok((e, t)),
        Err(er) => Err(er),
    }
}

/// The tail of a clip line from `pos`: the four timecodes bounding the clip,
/// assembled with the already-classified leading fields.
pub open spec fn spec_clip_times(
    s: Seq<u8>,
    pos: int,
    edit_index: u16,
    reel: crate::ast::Reel,
    edit_channels: crate::ast::EditChannels,
    edit_type: crate::ast::EditType,
    transition_duration: Option<u16>,
) -> Result<(int, Clip), EdlError> {
    match spec_tc_token(s, pos) {
        Err(e) => Err(e),
        Ok((p1, source_in_time)) => match spec_tc_token(s, p1) {
            Err(e) => Err(e),
            Ok((p2, source_out_time)) => match spec_tc_token(s, p2) {
                Err(e) => Err(e),
                Ok((p3, record_in_time)) => match spec_tc_token(s, p3) {
                    Err(e) => Err(e),
                    Ok((p4, record_out_time)) => Ok(
                        (
                            p4,
                            Clip {
                                edit_index,
                                reel,
                                edit_channels,
                                edit_type,
                                transition_duration,
                                source_in_time,
                                source_out_time,
                                record_in_time,
                                record_out_time,
                            },
                        ),
                    ),
                },
            },
        },
    }
}

/// The result of trying a clip line at `pos`: edit index, reel, channels
/// and edit type tokens in fixed order, then — exactly when the edit type
/// is not a cut — a transition-duration index token, then four timecodes.
/// Trying consumes nothing on failure.
pub open spec fn spec_clip(s: Seq<u8>, pos: int) -> Result<(int, Clip), EdlError> {
    let p1 = hspace_end(s, pos);
    let e1 = token_end(s, p1);
    let t1 = s.subrange(p1, e1);
    if !is_index_token(t1) {
        Err(EdlError::InvalidEditIndex)
    } else {
        let p2 = hspace_end(s, e1);
        let e2 = token_end(s, p2);
        match spec_reel(s.subrange(p2, e2)) {
            None => Err(EdlError::InvalidReel),
            Some(reel) => {
                let p3 = hspace_end(s, e2);
                let e3 = token_end(s, p3);
                match spec_channels(s.subrange(p3, e3)) {
                    None => Err(EdlError::InvalidChannels),
                    Some(edit_channels) => {
                        let p4 = hspace_end(s, e3);
                        let e4 = token_end(s, p4);
                        match spec_edit_type(s.subrange(p4, e4)) {
                            None => Err(EdlError::InvalidEditType),
                            Some(edit_type) => {
                                if edit_type is Cut {
                                    spec_clip_times(
                                        s,
                                        e4,
                                        index_val(t1) as u16,
                                        reel,
                                        edit_channels,
                                        edit_type,
                                        None,
                                    )
                                } else {
                                    let p5 = hspace_end(s, e4);
                                    let e5 = token_end(s, p5);
                                    let t5 = s.subrange(p5, e5);
                                    if !is_index_token(t5) {
                                        Err(EdlError::InvalidEditType)
                                    } else {
                                        spec_clip_times(
                                            s,
                                            e5,
                                            index_val(t1) as u16,
                                            reel,
                                            edit_channels,
                                            edit_type,
                                            Some(index_val(t5) as u16),
                                        )
                                    }
                                }
                            },
                        }
                    },
                }
            },
        }
    }
}

/// Reads one whitespace-preceded timecode token.
fn tc_token(input: &Vec<u8>, pos: usize) -> (r: Result<(usize, TimeCode), EdlError>)
    requires
        pos <= input@.len(),
    ensures
        match r {
            Ok(pt) => spec_tc_token(input@, pos as int) == Ok::<(int, TimeCode), EdlError>(
                (pt.0 as int, pt.1),
            ) && pos <= pt.0 <= input@.len(),
            Err(e) => spec_tc_token(input@, pos as int) == Err::<(int, TimeCode), EdlError>(e),
        },
{
    let p = skip_hspace(input, pos);
    let e = find_token_end(input, p);
    let t = subvec(input, p, e);
    match parse_timecode(&t) {
        Ok(tc) => Ok((e, tc)),
        Err(er) => Err(er),
    }
}

/// Tries to read a clip line at `pos`.  On success the returned position is
/// the end of the last timecode token; on failure nothing is consumed and
/// the error names the first field that failed.
pub fn parse_clip(input: &Vec<u8>, pos: usize) -> (r: Result<(usize, Clip), EdlError>)
    requires
        pos <= input@.len(),
    ensures
        match r {
            Ok(pc) => spec_clip(input@, pos as int) == Ok::<(int, Clip), EdlError>(
                (pc.0 as int, pc.1),
            ) && pos <= pc.0 <= input@.len(),
            Err(e) => spec_clip(input@, pos as int) == Err::<(int, Clip), EdlError>(e),
        },
{
    let p1 = skip_hspace(input, pos);
    let e1 = find_token_end(input, p1);
    let t1 = subvec(input, p1, e1);
    let edit_index = match parse_edit_index(&t1) {
        Ok(v) => v,
        Err(e) => {
            return Err(e);
        },
    };
    let p2 = skip_hspace(input, e1);
    let e2 = find_token_end(input, p2);
    let t2 = subvec(input, p2, e2);
    let reel = match parse_reel(&t2) {
        Ok(v) => v,
        Err(e) => {
            return Err(e);
        },
    };
    let p3 = skip_hspace(input, e2);
    let e3 = find_token_end(input, p3);
    let t3 = subvec(input, p3, e3);
    let edit_channels = match parse_edit_channels(&t3) {
        Ok(v) => v,
        Err(e) => {
            return Err(e);
        },
    };
    let p4 = skip_hspace(input, e3);
    let e4 = find_token_end(input, p4);
    let t4 = subvec(input, p4, e4);
    let edit_type = match parse_edit_type(&t4) {
        Ok(v) => v,
        Err(e) => {
            return Err(e);
        },
    };
    let transition_duration: Option<u16>;
    let cur: usize;
    match edit_type {
        crate::ast::EditType::Cut => {
            transition_duration = None;
            cur = e4;
        },
        _ => {
            let p5 = skip_hspace(input, e4);
            let e5 = find_token_end(input, p5);
            let t5 = subvec(input, p5, e5);
            match read_index(&t5) {
                Some(v) => {
                    transition_duration = Some(v);
                    cur = e5;
                },
                None => {
                    return Err(EdlError::InvalidEditType);
                },
            }
        },
    }
    let (c1, source_in_time) = match tc_token(input, cur) {
        Ok(v) => v,
        Err(e) => {
            return Err(e);
        },
    };
    let (c2, source_out_time) = match tc_token(input, c1) {
        Ok(v) => v,
        Err(e) => {
            return Err(e);
        },
    };
    let (c3, record_in_time) = match tc_token(input, c2) {
        Ok(v) => v,
        Err(e) => {
            return Err(e);
        },
    };
    let (c4, record_out_time) = match tc_token(input, c3) {
        Ok(v) => v,
        Err(e) => {
            return Err(e);
        },
    };
    Ok(
        (
            c4,
            Clip {
                edit_index,
                reel,
                edit_channels,
                edit_type,
                transition_duration,
                source_in_time,
                source_out_time,
                record_in_time,
                record_out_time,
            },
        ),
    )
}

pub proof fn lemma_spec_tc_bounds(s: Seq<u8>, pos: int)
    requires
        0 <= pos <= s.len(),
    ensures
        spec_tc_token(s, pos) matches Ok(pt) ==> pos <= pt.0 <= s.len(),
{
    lemma_hspace_end(s, pos);
    lemma_token_end(s, hspace_end(s, pos));
}

proof fn lemma_spec_clip_times_bounds(
    s: Seq<u8>,
    pos: int,
    ei: u16,
    re: crate::ast::Reel,
    ch: crate::ast::EditChannels,
    et: crate::ast::EditType,
    td: Option<u16>,
)
    requires
        0 <= pos <= s.len(),
    ensures
        spec_clip_times(s, pos, ei, re, ch, et, td) matches Ok(pc) ==> pos <= pc.0 <= s.len(),
{
    lemma_spec_tc_bounds(s, pos);
    if let Ok(a) = spec_tc_token(s, pos) {
        lemma_spec_tc_bounds(s, a.0);
        if let Ok(b) = spec_tc_token(s, a.0) {
            lemma_spec_tc_bounds(s, b.0);
            if let Ok(c) = spec_tc_token(s, b.0) {
                lemma_spec_tc_bounds(s, c.0);
            }
        }
    }
}

/// An accepted clip line consumes at least one byte and stays within the
/// input.
pub proof fn lemma_spec_clip_bounds(s: Seq<u8>, pos: int)
    requires
        0 <= pos <= s.len(),
    ensures
        spec_clip(s, pos) matches Ok(pc) ==> pos < pc.0 <= s.len(),
{
    let p1 = hspace_end(s, pos);
    lemma_hspace_end(s, pos);
    let e1 = token_end(s, p1);
    lemma_token_end(s, p1);
    let t1 = s.subrange(p1, e1);
    if is_index_token(t1) {
        assert(e1 == p1 + 3);
        let p2 = hspace_end(s, e1);
        lemma_hspace_end(s, e1);
        let e2 = token_end(s, p2);
        lemma_token_end(s, p2);
        if let Some(reel) = spec_reel(s.subrange(p2, e2)) {
            let p3 = hspace_end(s, e2);
            lemma_hspace_end(s, e2);
            let e3 = token_end(s, p3);
            lemma_token_end(s, p3);
            if let Some(ch) = spec_channels(s.subrange(p3, e3)) {
                let p4 = hspace_end(s, e3);
                lemma_hspace_end(s, e3);
                let e4 = token_end(s, p4);
                lemma_token_end(s, p4);
                if let Some(et) = spec_edit_type(s.subrange(p4, e4)) {
                    let t1v = index_val(t1) as u16;
                    lemma_spec_clip_times_bounds(s, e4, t1v, reel, ch, et, None);
                    let p5 = hspace_end(s, e4);
                    lemma_hspace_end(s, e4);
                    let e5 = token_end(s, p5);
                    lemma_token_end(s, p5);
                    let t5 = s.subrange(p5, e5);
                    if is_index_token(t5) {
                        lemma_spec_clip_times_bounds(
                            s,
                            e5,
                            t1v,
                            reel,
                            ch,
                            et,
                            Some(index_val(t5) as u16),
                        );
                    }
                }
            }
        }
    }
}

/// An accepted frame-code-mode line consumes at least one byte and stays
/// within the input.
pub proof fn lemma_spec_fcm_bounds(s: Seq<u8>, pos: int)
    requires
        0 <= pos <= s.len(),
    ensures
        spec_fcm(s, pos) matches Some(pm) ==> pos < pm.0 <= s.len(),
{
    if matches_at(s, pos, lit_fcm()) {
        assert(lit_fcm().len() == 4);
        let q = hspace_end(s, pos + 4);
        lemma_hspace_end(s, pos + 4);
        if matches_at(s, q, lit_drop()) {
            assert(lit_drop().len() == 10);
            lemma_hspace_end(s, q + 10);
        } else if matches_at(s, q, lit_non_drop()) {
            assert(lit_non_drop().len() == 14);
            lemma_hspace_end(s, q + 14);
        }
    }
}

/// The result of recognising one body line at `pos`: the ordered
/// alternation clip, then frame-code-mode, then note.  Only an
/// unterminated final line fails.
pub open spec fn spec_line(s: Seq<u8>, pos: int) -> Result<(int, LineModel), EdlError> {
    match spec_clip(s, pos) {
        Ok(pc) => Ok((pc.0, LineModel::Clip(pc.1))),
        Err(_) => match spec_fcm(s, pos) {
            Some(pm) => Ok((pm.0, LineModel::FCM(pm.1))),
            None => match spec_note(s, pos) {
                Ok(pn) => Ok((pn.0, LineModel::Note(pn.1))),
                Err(e) => Err(e),
            },
        },
    }
}

/// An accepted body line starting at a non-whitespace byte consumes at
/// least that byte and stays within the input.
pub proof fn lemma_spec_line_progress(s: Seq<u8>, pos: int)
    requires
        0 <= pos < s.len(),
        !is_line_ws(s[pos]),
    ensures
        spec_line(s, pos) matches Ok(pl) ==> pos < pl.0 <= s.len(),
{
    lemma_spec_clip_bounds(s, pos);
    lemma_spec_fcm_bounds(s, pos);
    lemma_line_end(s, pos);
    if spec_clip(s, pos) is Err && spec_fcm(s, pos) is None {
        assert(s[pos] != 10);
        assert(line_end(s, pos) == line_end(s, pos + 1));
        lemma_line_end(s, pos + 1);
    }
}

/// Recognises one body line at `pos`: tries a clip, then a frame-code-mode
/// declaration, and otherwise captures the line as a note.  An alternative
/// that fails consumes nothing.
pub fn parse_line(input: &Vec<u8>, pos: usize) -> (r: Result<(usize, Line), EdlError>)
    requires
        pos <= input@.len(),
    ensures
        match r {
            Ok(pl) => spec_line(input@, pos as int) == Ok::<(int, LineModel), EdlError>(
                (pl.0 as int, pl.1@),
            ) && pos <= pl.0 <= input@.len(),
            Err(e) => spec_line(input@, pos as int) == Err::<(int, LineModel), EdlError>(e),
        },
{
    match parse_clip(input, pos) {
        Ok((np, c)) => {
            return Ok((np, Line::Clip(c)));
        },
        Err(_) => {},
    }
    match parse_fcm(input, pos) {
        Some((np, m)) => {
            return Ok((np, Line::FCM(m)));
        },
        None => {},
    }
    match parse_notes(input, pos) {
        Ok((np, v)) => Ok((np, Line::Note(v))),
        Err(e) => Err(e),
    }
}

/// The body lines from `pos` to the end of the input: whitespace between
/// lines is skipped without producing an entry, and lines appear in source
/// order.
pub open spec fn spec_body(s: Seq<u8>, pos: int) -> Result<Seq<LineModel>, EdlError>
    decreases s.len() - pos,
        when 0 <= pos <= s.len()
        via spec_body_decreases
{
    let p = ws_end(s, pos);
    if p >= s.len() {
        Ok(Seq::empty())
    } else {
        match spec_line(s, p) {
            Err(e) => Err(e),
            Ok(pl) => match spec_body(s, pl.0) {
                Err(e) => Err(e),
                Ok(rest) => Ok(seq![pl.1] + rest),
            },
        }
    }
}

#[via_fn]
proof fn spec_body_decreases(s: Seq<u8>, pos: int) {
    lemma_ws_end(s, pos);
    let p = ws_end(s, pos);
    if p < s.len() {
        lemma_spec_line_progress(s, p);
    }
}

/// The whole document: the title line, its newline, then the body.
pub open spec fn spec_edl(s: Seq<u8>) -> Result<DocModel, EdlError> {
    match spec_title(s) {
        Err(e) => Err(e),
        Ok(tv) => match spec_body(s, tv.0 + 1) {
            Err(e) => Err(e),
            Ok(lines) => Ok(DocModel { title: lossy_of(tv.1), lines }),
        },
    }
}

/// The models of a sequence of parsed lines.
pub open spec fn views_of(lines: Seq<Line>) -> Seq<LineModel> {
    lines.map_values(|l: Line| l@)
}

/// Parses a whole document: the mandatory title line, then body lines in
/// source order until the input is exhausted.  The result is exactly what
/// `spec_edl` says of the input bytes, so parsing the same bytes twice
/// yields structurally equal documents.
pub fn parse_edl_file(input: &Vec<u8>) -> (r: Result<EdlFile, EdlError>)
    ensures
        match r {
            Ok(f) => spec_edl(input@) == Ok::<DocModel, EdlError>(f@),
            Err(e) => spec_edl(input@) == Err::<DocModel, EdlError>(e),
        },
{
    let n = input.len();
    let (nl, title) = match parse_title(input) {
        Ok(v) => v,
        Err(e) => {
            return Err(e);
        },
    };
    let ghost start: int = nl as int + 1;
    let mut pos: usize = nl + 1;
    let mut lines: Vec<Line> = Vec::new();
    proof {
        assert(views_of(lines@) =~= Seq::<LineModel>::empty());
    }
    loop
        invariant
            start == nl as int + 1,
            0 <= start <= pos as int <= input@.len(),
            spec_title(input@) matches Ok(tv) && (tv.0 == nl as int && title@ == lossy_of(tv.1)
                && nl < input@.len()),
            match spec_body(input@, pos as int) {
                Ok(rest) => spec_body(input@, start) == Ok::<Seq<LineModel>, EdlError>(
                    views_of(lines@) + rest,
                ),
                Err(e) => spec_body(input@, start) == Err::<Seq<LineModel>, EdlError>(e),
            },
        decreases input@.len() - pos,
    {
        let p = skip_ws(input, pos);
        if p == input.len() {
            proof {
                assert(spec_body(input@, pos as int) == Ok::<Seq<LineModel>, EdlError>(
                    Seq::empty(),
                ));
                assert(views_of(lines@) + Seq::<LineModel>::empty() =~= views_of(lines@));
            }
            let f = EdlFile { title, lines };
            proof {
                assert(f@.lines =~= views_of(f.lines@));
            }
            return Ok(f);
        }
        match parse_line(input, p) {
            Ok((np, l)) => {
                proof {
                    lemma_ws_end(input@, pos as int);
                    lemma_spec_line_progress(input@, p as int);
                }
                let ghost prior: Seq<LineModel> = views_of(lines@);
                let ghost lm: LineModel = l@;
                lines.push(l);
                proof {
                    assert(views_of(lines@) =~= prior.push(lm));
                    if let Ok(rest2) = spec_body(input@, np as int) {
                        assert(spec_body(input@, pos as int) == Ok::<Seq<LineModel>, EdlError>(
                            seq![lm] + rest2,
                        ));
                        assert(prior.push(lm) + rest2 =~= prior + (seq![lm] + rest2));
                    }
                }
                pos = np;
            },
            Err(e) => {
                proof {
                    assert(spec_body(input@, pos as int) == Err::<Seq<LineModel>, EdlError>(e));
                }
                return Err(e);
            },
        }
    }
}

} // verus!
