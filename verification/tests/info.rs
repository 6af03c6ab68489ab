use bili_remux::cache::restores;
use bili_remux::error::RemuxError;
use bili_remux::info::{
    classify_fragment, external_outcome, payload_offset, pick_fragments, Sources, VideoInfo,
};
use bili_remux::media::TrackType;

fn info(fragment: u8, tab_name: &str) -> VideoInfo {
    VideoInfo { fragment, tab_name: tab_name.to_string() }
}

#[test]
fn output_name_wraps_number_and_title() {
    assert_eq!(info(1, "Intro").output_name(), "[P1]Intro.mp4");
    assert_eq!(info(0, "").output_name(), "[P0].mp4");
    assert_eq!(info(9, "a b").output_name(), "[P9]a b.mp4");
    assert_eq!(info(10, "x").output_name(), "[P10]x.mp4");
    assert_eq!(info(42, "第二集").output_name(), "[P42]第二集.mp4");
    assert_eq!(info(99, "x").output_name(), "[P99]x.mp4");
    assert_eq!(info(100, "x").output_name(), "[P100]x.mp4");
    assert_eq!(info(205, "x").output_name(), "[P205]x.mp4");
    assert_eq!(info(255, "last.one").output_name(), "[P255]last.one.mp4");
}

#[test]
fn output_name_matches_plain_formatting() {
    for fragment in 0..=255u8 {
        let expected = format!("[P{}]{}.mp4", fragment, "t");
        assert_eq!(info(fragment, "t").output_name(), expected);
    }
}

#[test]
fn fragments_are_told_apart_by_the_marker() {
    assert_eq!(classify_fragment(Some("m4s"), "123456-1-30280"), Some(TrackType::Audio));
    assert_eq!(classify_fragment(Some("m4s"), "30280"), Some(TrackType::Audio));
    assert_eq!(classify_fragment(Some("m4s"), "x30280y"), Some(TrackType::Audio));
    assert_eq!(classify_fragment(Some("m4s"), "123456-1-30080"), Some(TrackType::Video));
    assert_eq!(classify_fragment(Some("m4s"), "3028"), Some(TrackType::Video));
    assert_eq!(classify_fragment(Some("m4s"), "3030280"), Some(TrackType::Audio));
    assert_eq!(classify_fragment(Some("m4s"), "30 280"), Some(TrackType::Video));
    assert_eq!(classify_fragment(Some("m4s"), ""), Some(TrackType::Video));
}

#[test]
fn other_files_are_no_fragments() {
    assert_eq!(classify_fragment(None, "30280"), None);
    assert_eq!(classify_fragment(Some("mp4"), "30280"), None);
    assert_eq!(classify_fragment(Some("M4S"), "video"), None);
    assert_eq!(classify_fragment(Some("m4"), "video"), None);
    assert_eq!(classify_fragment(Some("m4ss"), "video"), None);
    assert_eq!(classify_fragment(Some(""), "video"), None);
}

#[test]
fn the_last_fragment_of_each_kind_is_picked() {
    let video = Some(TrackType::Video);
    let audio = Some(TrackType::Audio);
    assert_eq!(pick_fragments(&vec![]), (None, None));
    assert_eq!(pick_fragments(&vec![None, None]), (None, None));
    assert_eq!(pick_fragments(&vec![video]), (Some(0), None));
    assert_eq!(pick_fragments(&vec![None, audio, video]), (Some(2), Some(1)));
    assert_eq!(pick_fragments(&vec![video, audio, None, video, audio, None]), (Some(3), Some(4)));
}

#[test]
fn payload_starts_after_the_leading_zeros() {
    assert_eq!(payload_offset(b"abc"), 0);
    assert_eq!(payload_offset(b"000abc"), 3);
    assert_eq!(payload_offset(b"000000000\x00\x00\x00\x20ftyp"), 9);
    assert_eq!(payload_offset(b"0a0"), 1);
    assert_eq!(payload_offset(b"00a"), 2);
    assert_eq!(payload_offset(b"a000"), 0);
    assert_eq!(&b"000abc0"[payload_offset(b"000abc0")..], b"abc0");
}

#[test]
fn a_file_of_nothing_but_zeros_has_no_payload() {
    assert_eq!(payload_offset(b""), 0);
    assert_eq!(payload_offset(b"0"), 1);
    assert_eq!(payload_offset(b"000"), 3);
    assert_eq!(&b"000"[payload_offset(b"000")..], b"");
    assert_eq!(&[0x30u8, 0x30, 0x30][payload_offset(&[0x30, 0x30, 0x30])..], &[] as &[u8]);
}

#[test]
fn muxer_arguments_name_both_sources_then_the_output() {
    let sources = Sources {
        video: "tmp/video.m4s".to_string(),
        audio: "tmp/audio.m4s".to_string(),
        output: "[P1]t.mp4".to_string(),
    };
    assert_eq!(
        sources.muxer_args(),
        vec!["-add", "tmp/video.m4s", "-add", "tmp/audio.m4s", "[P1]t.mp4"]
    );
}

#[test]
fn external_failure_is_one_coarse_error() {
    assert_eq!(external_outcome(true), Ok(()));
    assert_eq!(external_outcome(false), Err(RemuxError::ExternalTool));
}

#[test]
fn hidden_entries_and_directories_are_skipped() {
    assert!(restores(true, "0123456789abcdef"));
    assert!(restores(true, "name.with.dots"));
    assert!(restores(true, ""));
    assert!(!restores(true, ".DS_Store"));
    assert!(!restores(true, "."));
    assert!(!restores(false, "0123456789abcdef"));
    assert!(!restores(false, ".hidden"));
}
