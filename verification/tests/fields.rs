use edl::ast::EdlError;
use edl::ast::EditChannels;
use edl::ast::EditType;
use edl::ast::Reel;
use edl::ast::TimeCode;
use edl::ast::TimecodeField;
use edl::fields::parse_edit_channels;
use edl::fields::parse_edit_index;
use edl::fields::parse_edit_type;
use edl::fields::parse_reel;
use edl::timecode::parse_timecode;

#[test]
fn edit_index_round_trip() {
    for i in 1u16..=999 {
        let tok = format!("{:03}", i).into_bytes();
        assert_eq!(parse_edit_index(&tok), Ok(i));
    }
}

#[test]
fn edit_index_rejects_bad_tokens() {
    assert_eq!(parse_edit_index(&b"12".to_vec()), Err(EdlError::InvalidEditIndex));
    assert_eq!(parse_edit_index(&b"1234".to_vec()), Err(EdlError::InvalidEditIndex));
    assert_eq!(parse_edit_index(&b"12a".to_vec()), Err(EdlError::InvalidEditIndex));
    assert_eq!(parse_edit_index(&b"abc".to_vec()), Err(EdlError::InvalidEditIndex));
    assert_eq!(parse_edit_index(&b"".to_vec()), Err(EdlError::InvalidEditIndex));
    assert_eq!(parse_edit_index(&b"000".to_vec()), Err(EdlError::InvalidEditIndex));
}

#[test]
fn timecode_upper_bounds_accepted() {
    assert_eq!(
        parse_timecode(&b"23:59:59:29".to_vec()),
        Ok(TimeCode { hours: 23, minutes: 59, seconds: 59, frames: 29 })
    );
}

#[test]
fn timecode_hours_out_of_range() {
    assert_eq!(
        parse_timecode(&b"24:00:00:00".to_vec()),
        Err(EdlError::InvalidTimecodeField { field: TimecodeField::Hours, value: 24, max: 23 })
    );
}

#[test]
fn timecode_minutes_out_of_range() {
    assert_eq!(
        parse_timecode(&b"12:60:00:00".to_vec()),
        Err(EdlError::InvalidTimecodeField { field: TimecodeField::Minutes, value: 60, max: 59 })
    );
}

#[test]
fn timecode_frames_out_of_range() {
    assert_eq!(
        parse_timecode(&b"00:00:00:30".to_vec()),
        Err(EdlError::InvalidTimecodeField { field: TimecodeField::Frames, value: 30, max: 29 })
    );
}

#[test]
fn timecode_malformed_groups() {
    assert_eq!(
        parse_timecode(&b"1:00:00:00".to_vec()),
        Err(EdlError::InvalidTimecodeField { field: TimecodeField::Hours, value: 0, max: 23 })
    );
    assert_eq!(
        parse_timecode(&b"00:00:00".to_vec()),
        Err(EdlError::InvalidTimecodeField { field: TimecodeField::Frames, value: 0, max: 29 })
    );
    assert_eq!(
        parse_timecode(&b"00:0a:00:00".to_vec()),
        Err(EdlError::InvalidTimecodeField { field: TimecodeField::Minutes, value: 0, max: 59 })
    );
    assert_eq!(
        parse_timecode(&b"00:00:00:00:00".to_vec()),
        Err(EdlError::InvalidTimecodeField { field: TimecodeField::Frames, value: 0, max: 29 })
    );
    assert_eq!(
        parse_timecode(&b"".to_vec()),
        Err(EdlError::InvalidTimecodeField { field: TimecodeField::Hours, value: 0, max: 23 })
    );
}

#[test]
fn reel_mapping() {
    assert_eq!(parse_reel(&b"001b".to_vec()), Ok(Reel::Index { index: 1, is_b_roll: true }));
    assert_eq!(parse_reel(&b"001B".to_vec()), Ok(Reel::Index { index: 1, is_b_roll: false }));
    assert_eq!(parse_reel(&b"999b".to_vec()), Ok(Reel::Index { index: 999, is_b_roll: true }));
    assert_eq!(parse_reel(&b"BL".to_vec()), Ok(Reel::Black));
    assert_eq!(parse_reel(&b"AX".to_vec()), Ok(Reel::Black));
}

#[test]
fn reel_rejects_bad_tokens() {
    assert_eq!(parse_reel(&b"9999".to_vec()), Err(EdlError::InvalidReel));
    assert_eq!(parse_reel(&b"001".to_vec()), Err(EdlError::InvalidReel));
    assert_eq!(parse_reel(&b"000b".to_vec()), Err(EdlError::InvalidReel));
    assert_eq!(parse_reel(&b"01bb".to_vec()), Err(EdlError::InvalidReel));
    assert_eq!(parse_reel(&b"XY".to_vec()), Err(EdlError::InvalidReel));
    assert_eq!(parse_reel(&b"".to_vec()), Err(EdlError::InvalidReel));
}

#[test]
fn channels_mapping() {
    assert_eq!(parse_edit_channels(&b"A".to_vec()), Ok(EditChannels::Audio1));
    assert_eq!(parse_edit_channels(&b"B".to_vec()), Ok(EditChannels::Audio1Video));
    assert_eq!(parse_edit_channels(&b"V".to_vec()), Ok(EditChannels::Video));
    assert_eq!(parse_edit_channels(&b"A2".to_vec()), Ok(EditChannels::Audio2));
    assert_eq!(parse_edit_channels(&b"A2/V".to_vec()), Ok(EditChannels::Audio2Video));
    assert_eq!(parse_edit_channels(&b"AA".to_vec()), Ok(EditChannels::Audio1Audio2));
    assert_eq!(parse_edit_channels(&b"AA/V".to_vec()), Ok(EditChannels::Audio1Audio2Video));
}

#[test]
fn channels_rejects_bad_tokens() {
    assert_eq!(parse_edit_channels(&b"X".to_vec()), Err(EdlError::InvalidChannels));
    assert_eq!(parse_edit_channels(&b"AV".to_vec()), Err(EdlError::InvalidChannels));
    assert_eq!(parse_edit_channels(&b"".to_vec()), Err(EdlError::InvalidChannels));
}

#[test]
fn edit_type_mapping() {
    assert_eq!(parse_edit_type(&b"C".to_vec()), Ok(EditType::Cut));
    assert_eq!(parse_edit_type(&b"D".to_vec()), Ok(EditType::Dissolve));
    assert_eq!(parse_edit_type(&b"W005".to_vec()), Ok(EditType::Wipe(5)));
    assert_eq!(parse_edit_type(&b"K".to_vec()), Ok(EditType::KeyForeground));
    assert_eq!(parse_edit_type(&b"KB".to_vec()), Ok(EditType::KeyBackground));
    assert_eq!(parse_edit_type(&b"KO".to_vec()), Ok(EditType::KRemoveFromForeground));
}

#[test]
fn edit_type_rejects_bad_tokens() {
    assert_eq!(parse_edit_type(&b"Q".to_vec()), Err(EdlError::InvalidEditType));
    assert_eq!(parse_edit_type(&b"KX".to_vec()), Err(EdlError::InvalidEditType));
    assert_eq!(parse_edit_type(&b"W05".to_vec()), Err(EdlError::InvalidEditType));
    assert_eq!(parse_edit_type(&b"W".to_vec()), Err(EdlError::InvalidEditType));
    assert_eq!(parse_edit_type(&b"".to_vec()), Err(EdlError::InvalidEditType));
}
