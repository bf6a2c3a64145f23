use edl::ast::Clip;
use edl::ast::EdlError;
use edl::ast::EditChannels;
use edl::ast::EditType;
use edl::ast::FrameCodeModeChange;
use edl::ast::Line;
use edl::ast::Reel;
use edl::ast::TimeCode;
use edl::parse::parse_clip;
use edl::parse::parse_edl_file;
use edl::parse::parse_fcm;
use edl::parse::parse_notes;
use edl::parse::parse_title;

fn tc(hours: u8, minutes: u8, seconds: u8, frames: u8) -> TimeCode {
    TimeCode { hours, minutes, seconds, frames }
}

#[test]
fn title_leaves_newline_unconsumed() {
    let input = b"   TITLE: ZAMA\n".to_vec();
    let (pos, title) = parse_title(&input).unwrap();
    assert_eq!(title, "ZAMA");
    assert_eq!(pos, 14);
    assert_eq!(input[pos], b'\n');
}

#[test]
fn title_may_be_empty() {
    let input = b"TITLE:\n".to_vec();
    let (pos, title) = parse_title(&input).unwrap();
    assert_eq!(title, "");
    assert_eq!(pos, 6);
}

#[test]
fn title_without_newline_is_unexpected_eof() {
    let input = b"TITLE: X".to_vec();
    assert_eq!(parse_title(&input), Err(EdlError::UnexpectedEof));
}

#[test]
fn title_keeps_non_ascii_text() {
    let input = "TITLE: caf\u{e9} tape\n".as_bytes().to_vec();
    let (_, title) = parse_title(&input).unwrap();
    assert_eq!(title, "caf\u{e9} tape");
}

#[test]
fn missing_header_fails_whole_parse() {
    let input = b"FCM: DROP FRAME\n001  AX  V  C  00:00:00:00 00:00:01:00 01:00:00:00 01:00:01:00\n".to_vec();
    assert_eq!(parse_edl_file(&input), Err(EdlError::MalformedHeader));
}

#[test]
fn fcm_line_variants() {
    let drop = b"FCM: DROP FRAME\n".to_vec();
    let (pos, mode) = parse_fcm(&drop, 0).unwrap();
    assert_eq!(mode, FrameCodeModeChange::DropFrame);
    assert_eq!(pos, 15);
    let non_drop = b"FCM: NON-DROP FRAME\n".to_vec();
    let (_, mode) = parse_fcm(&non_drop, 0).unwrap();
    assert_eq!(mode, FrameCodeModeChange::NonDropFrame);
    let other = b"FCM: SOMETHING\n".to_vec();
    assert!(parse_fcm(&other, 0).is_none());
}

#[test]
fn note_requires_terminator() {
    let input = b"hello\n".to_vec();
    let (pos, text) = parse_notes(&input, 0).unwrap();
    assert_eq!(pos, 5);
    assert_eq!(text, b"hello".to_vec());
    let unterminated = b"hello".to_vec();
    assert_eq!(parse_notes(&unterminated, 0), Err(EdlError::UnterminatedLine));
}

#[test]
fn clip_cut_has_no_duration() {
    let input = b"001  AX       V     C        00:00:00:00 00:00:01:24 01:00:00:00 01:00:01:24\n".to_vec();
    let (_, clip) = parse_clip(&input, 0).unwrap();
    assert_eq!(
        clip,
        Clip {
            edit_index: 1,
            reel: Reel::Black,
            edit_channels: EditChannels::Video,
            edit_type: EditType::Cut,
            transition_duration: None,
            source_in_time: tc(0, 0, 0, 0),
            source_out_time: tc(0, 0, 1, 24),
            record_in_time: tc(1, 0, 0, 0),
            record_out_time: tc(1, 0, 1, 24),
        }
    );
}

#[test]
fn clip_dissolve_takes_duration() {
    let input = b"002 001b AA/V D 025 00:00:00:00 00:00:01:00 01:00:00:00 01:00:01:00\n".to_vec();
    let (_, clip) = parse_clip(&input, 0).unwrap();
    assert_eq!(clip.edit_index, 2);
    assert_eq!(clip.reel, Reel::Index { index: 1, is_b_roll: true });
    assert_eq!(clip.edit_channels, EditChannels::Audio1Audio2Video);
    assert_eq!(clip.edit_type, EditType::Dissolve);
    assert_eq!(clip.transition_duration, Some(25));
}

#[test]
fn clip_non_cut_without_duration_fails() {
    let input = b"002 001b V D 00:00:00:00 00:00:01:00 01:00:00:00 01:00:01:00\n".to_vec();
    assert_eq!(parse_clip(&input, 0), Err(EdlError::InvalidEditType));
}

#[test]
fn clip_wipe_carries_pattern() {
    let input = b"003 BL V W005 010 00:00:00:00 00:00:01:00 01:00:00:00 01:00:01:00\n".to_vec();
    let (_, clip) = parse_clip(&input, 0).unwrap();
    assert_eq!(clip.edit_type, EditType::Wipe(5));
    assert_eq!(clip.transition_duration, Some(10));
}

#[test]
fn full_document_preserves_order() {
    let input = b"TITLE: Demo\n\
FCM: NON-DROP FRAME\n\
001  AX  V  C  00:00:00:00 00:00:01:24 01:00:00:00 01:00:01:24\n\
* FROM CLIP NAME: IMG_2926.TRIM.mov\n\
002  AX  V  C  00:00:01:24 00:00:02:02 01:00:01:24 01:00:02:02\n\
* FROM CLIP NAME: IMG_2927.TRIM.mov\n"
        .to_vec();
    let doc = parse_edl_file(&input).unwrap();
    assert_eq!(doc.title, "Demo");
    assert_eq!(doc.lines.len(), 5);
    assert_eq!(doc.lines[0], Line::FCM(FrameCodeModeChange::NonDropFrame));
    match &doc.lines[1] {
        Line::Clip(c) => {
            assert_eq!(c.edit_index, 1);
            assert_eq!(c.source_out_time, tc(0, 0, 1, 24));
        },
        other => panic!("expected a clip, got {:?}", other),
    }
    assert_eq!(doc.lines[2], Line::Note(b"* FROM CLIP NAME: IMG_2926.TRIM.mov".to_vec()));
    match &doc.lines[3] {
        Line::Clip(c) => assert_eq!(c.edit_index, 2),
        other => panic!("expected a clip, got {:?}", other),
    }
    assert_eq!(doc.lines[4], Line::Note(b"* FROM CLIP NAME: IMG_2927.TRIM.mov".to_vec()));
}

#[test]
fn parsing_twice_gives_equal_documents() {
    let input = b"TITLE: Twice\n\
FCM: DROP FRAME\n\
001 001B B C 00:00:00:00 00:00:01:00 01:00:00:00 01:00:01:00\n\
* a note\n"
        .to_vec();
    let first = parse_edl_file(&input).unwrap();
    let second = parse_edl_file(&input).unwrap();
    assert_eq!(first, second);
}

#[test]
fn malformed_clip_line_demotes_to_note() {
    let input = b"TITLE: T\n001 AX V C 99:00:00:00 00:00:00:00 00:00:00:00 00:00:00:00\n".to_vec();
    let doc = parse_edl_file(&input).unwrap();
    assert_eq!(doc.lines.len(), 1);
    assert_eq!(
        doc.lines[0],
        Line::Note(b"001 AX V C 99:00:00:00 00:00:00:00 00:00:00:00 00:00:00:00".to_vec())
    );
}

#[test]
fn blank_lines_are_skipped() {
    let input = b"TITLE: T\n\n\n* one\n\n\n* two\n\n".to_vec();
    let doc = parse_edl_file(&input).unwrap();
    assert_eq!(doc.lines, vec![Line::Note(b"* one".to_vec()), Line::Note(b"* two".to_vec())]);
}

#[test]
fn final_clip_line_may_lack_newline() {
    let input = b"TITLE: T\n001 AX V C 00:00:00:00 00:00:01:00 01:00:00:00 01:00:01:00".to_vec();
    let doc = parse_edl_file(&input).unwrap();
    assert_eq!(doc.lines.len(), 1);
    assert!(matches!(doc.lines[0], Line::Clip(_)));
}

#[test]
fn final_note_line_without_newline_is_unterminated() {
    let input = b"TITLE: T\n* dangling comment".to_vec();
    assert_eq!(parse_edl_file(&input), Err(EdlError::UnterminatedLine));
}

#[test]
fn fcm_trailing_text_becomes_note() {
    let input = b"TITLE: T\nFCM: DROP FRAME x\n".to_vec();
    let doc = parse_edl_file(&input).unwrap();
    assert_eq!(
        doc.lines,
        vec![Line::FCM(FrameCodeModeChange::DropFrame), Line::Note(b"x".to_vec())]
    );
}

#[test]
fn text_after_clip_tokens_becomes_its_own_note() {
    let input =
        b"TITLE: T\n001 AX V C 00:00:00:00 00:00:01:00 01:00:00:00 01:00:01:00 extra\n".to_vec();
    let doc = parse_edl_file(&input).unwrap();
    assert_eq!(doc.lines.len(), 2);
    assert!(matches!(doc.lines[0], Line::Clip(_)));
    assert_eq!(doc.lines[1], Line::Note(b"extra".to_vec()));
}

#[test]
fn empty_input_is_malformed_header() {
    let input: Vec<u8> = Vec::new();
    assert_eq!(parse_edl_file(&input), Err(EdlError::MalformedHeader));
}
