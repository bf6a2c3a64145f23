//! The data model of a parsed edit decision list, its error type, and the
//! well-formedness conditions that every parsed value satisfies.

use vstd::prelude::*;

verus! {

/// Which track(s) of the timeline an edit affects.
#[derive(Debug, PartialEq, Eq, Clone, Copy)]
pub enum EditChannels {
    Audio1,
    Audio1Video,
    Video,
    Audio2,
    Audio2Video,
    Audio1Audio2,
    Audio1Audio2Video,
}

/// The kind of transition an edit performs.  All kinds but `Cut` carry a
/// transition duration in the clip that holds them.
#[derive(Debug, PartialEq, Eq, Clone, Copy)]
pub enum EditType {
    Cut,
    Dissolve,
    Wipe(u16),
    KeyBackground,
    KeyForeground,
    KRemoveFromForeground,
}

/// The source media of an edit: a numbered tape (optionally marked as
/// supplementary "B-roll" footage), the synthetic black source, or an
/// auxiliary source.
#[derive(Debug, PartialEq, Eq, Clone, Copy)]
pub enum Reel {
    Index { index: u16, is_b_roll: bool },
    Black,
    Aux,
}

/// An hours:minutes:seconds:frames position on a timeline.
#[derive(Debug, PartialEq, Eq, Clone, Copy)]
pub struct TimeCode {
    pub hours: u8,
    pub minutes: u8,
    pub seconds: u8,
    pub frames: u8,
}

/// Declares whether the timecodes that follow use drop-frame counting.
#[derive(Debug, PartialEq, Eq, Clone, Copy)]
pub enum FrameCodeModeChange {
    DropFrame,
    NonDropFrame,
}

/// One edit event: its sequence number, source media, affected channels,
/// transition, and the four timecodes bounding it on the source and record
/// timelines.
#[derive(Debug, PartialEq, Eq, Clone, Copy)]
pub struct Clip {
    pub edit_index: u16,
    pub reel: Reel,
    pub edit_channels: EditChannels,
    pub edit_type: EditType,
    pub transition_duration: Option<u16>,
    pub source_in_time: TimeCode,
    pub source_out_time: TimeCode,
    pub record_in_time: TimeCode,
    pub record_out_time: TimeCode,
}

/// One line of the document body: a frame-code-mode declaration, an edit
/// event, or a free-text comment captured verbatim.
#[derive(Debug, PartialEq, Eq)]
pub enum Line {
    FCM(FrameCodeModeChange),
    Clip(Clip),
    Note(Vec<u8>),
}

/// A parsed document: the mandatory title and the body lines in the exact
/// order they appeared in the source text.
#[derive(Debug, PartialEq, Eq)]
pub struct EdlFile {
    pub title: String,
    pub lines: Vec<Line>,
}

/// Names the group of a timecode token that an error refers to.
#[derive(Debug, PartialEq, Eq, Clone, Copy)]
pub enum TimecodeField {
    Hours,
    Minutes,
    Seconds,
    Frames,
}

/// Everything that can go wrong while parsing.  `InvalidTimecodeField`
/// carries the offending group, its numeric value (0 when the group is not
/// two decimal digits), and the ceiling it must not exceed.
#[derive(Debug, PartialEq, Eq, Clone, Copy)]
pub enum EdlError {
    MalformedHeader,
    InvalidEditIndex,
    InvalidReel,
    InvalidChannels,
    InvalidEditType,
    InvalidTimecodeField { field: TimecodeField, value: u8, max: u8 },
    UnterminatedLine,
    UnexpectedEof,
}

/// Mathematical model of one body line: a note is modelled as the sequence
/// of bytes it captured.
pub enum LineModel {
    FCM(FrameCodeModeChange),
    Clip(Clip),
    Note(Seq<u8>),
}

/// Mathematical model of a parsed document.
pub struct DocModel {
    pub title: Seq<char>,
    pub lines: Seq<LineModel>,
}

impl View for Line {
    type V = LineModel;

    open spec fn view(&self) -> LineModel {
        match self {
            Line::FCM(m) => LineModel::FCM(*m),
            Line::Clip(c) => LineModel::Clip(*c),
            Line::Note(v) => LineModel::Note(v@),
        }
    }
}

impl View for EdlFile {
    type V = DocModel;

    open spec fn view(&self) -> DocModel {
        DocModel { title: self.title@, lines: self.lines@.map_values(|l: Line| l@) }
    }
}

/// Every field of a timecode is independently bounded.
pub open spec fn timecode_wf(t: TimeCode) -> bool {
    t.hours <= 23 && t.minutes <= 59 && t.seconds <= 59 && t.frames <= 29
}

/// A numbered reel carries an index in 1..=999.
pub open spec fn reel_wf(r: Reel) -> bool {
    match r {
        Reel::Index { index, is_b_roll } => 1 <= index <= 999,
        _ => true,
    }
}

/// A wipe carries a pattern index in 1..=999.
pub open spec fn edit_type_wf(t: EditType) -> bool {
    match t {
        EditType::Wipe(p) => 1 <= p <= 999,
        _ => true,
    }
}

/// The invariant of every clip the parser produces: bounded indices, bounded
/// timecodes, and a transition duration present exactly when the edit type
/// is not a cut.
pub open spec fn clip_wf(c: Clip) -> bool {
    &&& 1 <= c.edit_index <= 999
    &&& reel_wf(c.reel)
    &&& edit_type_wf(c.edit_type)
    &&& (c.transition_duration is Some <==> !(c.edit_type is Cut))
    &&& (c.transition_duration matches Some(d) ==> 1 <= d <= 999)
    &&& timecode_wf(c.source_in_time)
    &&& timecode_wf(c.source_out_time)
    &&& timecode_wf(c.record_in_time)
    &&& timecode_wf(c.record_out_time)
}

} // verus!
