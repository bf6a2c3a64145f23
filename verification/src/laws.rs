//! General laws of the parser, proved from the contracts the other modules
//! state: the edit-index round trip, the fatality of a missing header,
//! determinism of the whole parse, and the invariant of every parsed clip.

use vstd::prelude::*;
use crate::ast::clip_wf;
use crate::ast::edit_type_wf;
use crate::ast::reel_wf;
use crate::ast::timecode_wf;
use crate::ast::DocModel;
use crate::ast::EdlError;
use crate::ast::EditChannels;
use crate::ast::EditType;
use crate::ast::LineModel;
use crate::ast::Reel;
use crate::fields::index_val;
use crate::fields::is_index_token;
use crate::fields::spec_channels;
use crate::fields::spec_edit_type;
use crate::fields::spec_reel;
use crate::scan::hspace_end;
use crate::scan::lemma_hspace_end;
use crate::scan::lemma_line_end;
use crate::scan::lemma_ws_end;
use crate::scan::matches_at;
use crate::scan::token_end;
use crate::scan::ws_end;
use crate::parse::lemma_spec_line_progress;
use crate::parse::lit_title;
use crate::parse::spec_body;
use crate::parse::spec_clip;
use crate::parse::spec_clip_times;
use crate::parse::spec_edl;
use crate::parse::spec_line;
use crate::parse::spec_tc_token;
use crate::parse::spec_title;
use crate::timecode::lemma_timecode_wf;

verus! {

/// The three-digit zero-padded token that names `i`.
pub open spec fn index_token_of(i: int) -> Seq<u8> {
    seq![(48 + i / 100) as u8, (48 + (i / 10) % 10) as u8, (48 + i % 10) as u8]
}

/// Round trip: every index in 1..=999, formatted as its zero-padded
/// three-digit token, is an acceptable edit-index token and reads back as
/// itself.  (Conversely, the edit-index parser's contract already rejects
/// every token that is not three decimal digits naming 1..=999.)
pub proof fn lemma_edit_index_round_trip(i: int)
    requires
        1 <= i <= 999,
    ensures
        is_index_token(index_token_of(i)),
        index_val(index_token_of(i)) == i,
{
    vstd::arithmetic::div_mod::lemma_fundamental_div_mod(i, 10);
    vstd::arithmetic::div_mod::lemma_fundamental_div_mod(i / 10, 10);
    vstd::arithmetic::div_mod::lemma_div_denominator(i, 10, 10);
    vstd::arithmetic::div_mod::lemma_mod_bound(i, 10);
    vstd::arithmetic::div_mod::lemma_mod_bound(i / 10, 10);
    vstd::arithmetic::div_mod::lemma_fundamental_div_mod(i, 100);
    vstd::arithmetic::div_mod::lemma_mod_bound(i, 100);
    assert(0 <= i / 100 <= 9);
    assert(0 <= (i / 10) % 10 <= 9);
    assert(0 <= i % 10 <= 9);
    assert(index_token_of(i)[0] == (48 + i / 100) as u8);
    assert(i == (i / 100) * 100 + ((i / 10) % 10) * 10 + i % 10);
}

/// An input that does not begin (after leading horizontal whitespace) with
/// the literal header marker fails as a whole with `MalformedHeader`.
pub proof fn lemma_missing_header(s: Seq<u8>)
    requires
        !matches_at(s, hspace_end(s, 0), lit_title()),
    ensures
        spec_edl(s) == Err::<DocModel, EdlError>(EdlError::MalformedHeader),
{
}

/// Parsing is a pure function of the input bytes: two parses of the same
/// input can only yield structurally equal documents.
pub proof fn lemma_parse_deterministic(s: Seq<u8>, d1: DocModel, d2: DocModel)
    requires
        spec_edl(s) == Ok::<DocModel, EdlError>(d1),
        spec_edl(s) == Ok::<DocModel, EdlError>(d2),
    ensures
        d1 == d2,
{
}

proof fn lemma_tc_token_wf(s: Seq<u8>, pos: int)
    ensures
        spec_tc_token(s, pos) matches Ok(pt) ==> timecode_wf(pt.1),
{
    lemma_timecode_wf(s.subrange(hspace_end(s, pos), token_end(s, hspace_end(s, pos))));
}

proof fn lemma_clip_times_wf(
    s: Seq<u8>,
    pos: int,
    ei: u16,
    re: Reel,
    ch: EditChannels,
    et: EditType,
    td: Option<u16>,
)
    requires
        1 <= ei <= 999,
        reel_wf(re),
        edit_type_wf(et),
        (td is Some <==> !(et is Cut)),
        td matches Some(d) ==> 1 <= d <= 999,
    ensures
        spec_clip_times(s, pos, ei, re, ch, et, td) matches Ok(pc) ==> clip_wf(pc.1),
{
    lemma_tc_token_wf(s, pos);
    if let Ok(a) = spec_tc_token(s, pos) {
        lemma_tc_token_wf(s, a.0);
        if let Ok(b) = spec_tc_token(s, a.0) {
            lemma_tc_token_wf(s, b.0);
            if let Ok(c) = spec_tc_token(s, b.0) {
                lemma_tc_token_wf(s, c.0);
            }
        }
    }
}

/// Every clip the clip-line parser accepts satisfies the clip invariant:
/// bounded indices, bounded timecodes, and a transition duration present
/// exactly when the edit type is not a cut.
pub proof fn lemma_clip_well_formed(s: Seq<u8>, pos: int)
    ensures
        spec_clip(s, pos) matches Ok(pc) ==> clip_wf(pc.1),
{
    let p1 = hspace_end(s, pos);
    let e1 = token_end(s, p1);
    let t1 = s.subrange(p1, e1);
    if is_index_token(t1) {
        let p2 = hspace_end(s, e1);
        let e2 = token_end(s, p2);
        if let Some(reel) = spec_reel(s.subrange(p2, e2)) {
            let p3 = hspace_end(s, e2);
            let e3 = token_end(s, p3);
            if let Some(ch) = spec_channels(s.subrange(p3, e3)) {
                let p4 = hspace_end(s, e3);
                let e4 = token_end(s, p4);
                if let Some(et) = spec_edit_type(s.subrange(p4, e4)) {
                    let t1v = index_val(t1) as u16;
                    if et is Cut {
                        lemma_clip_times_wf(s, e4, t1v, reel, ch, et, None);
                    } else {
                        let p5 = hspace_end(s, e4);
                        let e5 = token_end(s, p5);
                        let t5 = s.subrange(p5, e5);
                        if is_index_token(t5) {
                            lemma_clip_times_wf(
                                s,
                                e5,
                                t1v,
                                reel,
                                ch,
                                et,
                                Some(index_val(t5) as u16),
                            );
                        }
                    }
                }
            }
        }
    }
}

proof fn lemma_body_clips_wf(s: Seq<u8>, pos: int)
    requires
        0 <= pos <= s.len(),
    ensures
        spec_body(s, pos) matches Ok(ls) ==> forall|i: int|
            0 <= i < ls.len() ==> ((#[trigger] ls[i]) matches LineModel::Clip(c) ==> clip_wf(c)),
    decreases s.len() - pos,
{
    lemma_ws_end(s, pos);
    let p = ws_end(s, pos);
    if p < s.len() {
        if let Ok(pl) = spec_line(s, p) {
            lemma_spec_line_progress(s, p);
            lemma_clip_well_formed(s, p);
            lemma_body_clips_wf(s, pl.0);
            if let Ok(rest) = spec_body(s, pl.0) {
                if let Ok(ls) = spec_body(s, pos) {
                    assert(ls == seq![pl.1] + rest);
                    assert forall|i: int|
                        0 <= i < ls.len() implies ((#[trigger] ls[i]) matches LineModel::Clip(c)
                        ==> clip_wf(c)) by {
                        if i == 0 {
                            assert(ls[0] == pl.1);
                        } else {
                            assert(ls[i] == rest[i - 1]);
                        }
                    }
                }
            }
        }
    }
}

/// Every clip line of a parsed document satisfies the clip invariant.
pub proof fn lemma_document_clips_well_formed(s: Seq<u8>, d: DocModel)
    requires
        spec_edl(s) == Ok::<DocModel, EdlError>(d),
    ensures
        forall|i: int|
            0 <= i < d.lines.len() ==> ((#[trigger] d.lines[i]) matches LineModel::Clip(c) ==> clip_wf(c)),
{
    if let Ok(tv) = spec_title(s) {
        lemma_hspace_end(s, 0);
        let p = hspace_end(s, 0);
        assert(lit_title().len() == 6);
        lemma_hspace_end(s, p + 6);
        let q = hspace_end(s, p + 6);
        lemma_line_end(s, q);
        lemma_body_clips_wf(s, tv.0 + 1);
    }
}

} // verus!
