use osu2malody_store::osu_parser::{
    parse_audio_and_background, parse_audio_filename, parse_background_filename,
};

const OSU_CONTENT: &str = r#"osu file format v14

[General]
AudioFilename: song.mp3
AudioLeadIn: 0
Mode: 3

[Events]
//Background and Video events
0,0,"bg.jpg",0,0
//Break Periods
2,52831,59432

[Metadata]
Title:Test Song
"#;

#[test]
fn parse_audio_filename_found() {
    assert_eq!(parse_audio_filename(OSU_CONTENT), Some("song.mp3".into()));
}

#[test]
fn parse_audio_filename_not_found() {
    assert_eq!(parse_audio_filename("[General]\nOther: value"), None);
}

#[test]
fn parse_background_filename_found() {
    assert_eq!(parse_background_filename(OSU_CONTENT), Some("bg.jpg".into()));
}

#[test]
fn parse_background_filename_not_found() {
    assert_eq!(parse_background_filename("[Events]\n1,0,\"bg.jpg\""), None);
}

#[test]
fn parse_audio_and_background_both_found() {
    let (audio, bg) = parse_audio_and_background(OSU_CONTENT);
    assert_eq!(audio, Some("song.mp3".into()));
    assert_eq!(bg, Some("bg.jpg".into()));
}

#[test]
fn parse_audio_and_background_empty() {
    let (audio, bg) = parse_audio_and_background("");
    assert_eq!(audio, None);
    assert_eq!(bg, None);
}

#[test]
fn parse_with_comments_skipped() {
    let content = "[General]\n// comment\nAudioFilename: music.ogg\n// another comment";
    assert_eq!(parse_audio_filename(content), Some("music.ogg".into()));
}

#[test]
fn parse_with_quoted_values() {
    let content = "[General]\nAudioFilename: \"quoted song.mp3\"";
    assert_eq!(parse_audio_filename(content), Some("quoted song.mp3".into()));
}

#[test]
fn background_with_quotes() {
    let content = "[Events]\n0,0,\"background image.png\"";
    assert_eq!(parse_background_filename(content), Some("background image.png".into()));
}

#[test]
fn parse_audio_outside_general_ignored() {
    assert_eq!(parse_audio_filename("[Metadata]\nAudioFilename: a.mp3"), None);
    assert_eq!(parse_audio_filename("AudioFilename: a.mp3"), None);
}

#[test]
fn parse_crlf_and_whitespace() {
    let content = "[General]\r\n  AudioFilename :   x y.mp3  \r\n";
    assert_eq!(parse_audio_filename(content), Some("x y.mp3".into()));
}

#[test]
fn parse_first_audio_line_wins() {
    let content = "[General]\nAudioFilename: a.mp3\nAudioFilename: b.mp3";
    assert_eq!(parse_audio_filename(content), Some("a.mp3".into()));
    // the one-pass scan keeps the last one it saw
    assert_eq!(parse_audio_and_background(content).0, Some("b.mp3".into()));
}

#[test]
fn parse_background_needs_three_fields() {
    assert_eq!(parse_background_filename("[Events]\n0,0"), None);
    assert_eq!(parse_background_filename("[Events]\n 0 , 0 , bg.png , 1"), Some("bg.png".into()));
    assert_eq!(parse_background_filename("[Events]\n0,0,\"\"\"x\"\"\""), Some("x".into()));
}

#[test]
fn one_pass_stops_at_background() {
    let content = "[Events]\n0,0,bg.jpg\n[General]\nAudioFilename: a.mp3";
    let (audio, bg) = parse_audio_and_background(content);
    assert_eq!(audio, None);
    assert_eq!(bg, Some("bg.jpg".into()));
    assert_eq!(parse_audio_filename(content), Some("a.mp3".into()));
}

#[test]
fn header_with_brackets_only() {
    assert_eq!(parse_audio_filename("[]\nAudioFilename: a"), None);
    assert_eq!(parse_audio_filename("[General]\n[\nAudioFilename: a"), Some("a".into()));
}

#[test]
fn one_pass_agrees_when_audio_precedes_background() {
    let content = "[General]\nAudioFilename: a.mp3\n[Events]\n0,0,bg.jpg\n[General]\nMode: 3";
    let (audio, bg) = parse_audio_and_background(content);
    assert_eq!(audio, parse_audio_filename(content));
    assert_eq!(audio, Some("a.mp3".into()));
    assert_eq!(bg, parse_background_filename(content));
}
