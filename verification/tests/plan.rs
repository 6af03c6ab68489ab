use bili_remux::error::RemuxError;
use bili_remux::media::{AacConfig, AvcConfig, MediaConfig, TrackConfig, TrackSummary, TrackType};
use bili_remux::plan::{audio_track_config, video_track_config};

fn video_summary() -> TrackSummary {
    TrackSummary {
        handler: *b"vide",
        width: 640,
        height: 360,
        timescale: 16000,
        language: "und".to_string(),
        seq_param_set: Some(vec![0x67, 0x64, 0x00, 0x0d, 0xac]),
        pic_param_set: Some(vec![0x68, 0xeb]),
        profile: None,
        freq_index: None,
        chan_conf: None,
    }
}

fn audio_summary() -> TrackSummary {
    TrackSummary {
        handler: *b"soun",
        width: 0,
        height: 0,
        timescale: 48000,
        language: "jpn".to_string(),
        seq_param_set: None,
        pic_param_set: None,
        profile: Some(2),
        freq_index: Some(3),
        chan_conf: Some(2),
    }
}

#[test]
fn video_track_is_declared_from_its_summary() {
    assert_eq!(
        video_track_config(Some(video_summary())),
        Ok(TrackConfig {
            track_type: TrackType::Video,
            timescale: 16000,
            language: "und".to_string(),
            media_conf: MediaConfig::Avc(AvcConfig {
                width: 640,
                height: 360,
                seq_param_set: vec![0x67, 0x64, 0x00, 0x0d, 0xac],
                pic_param_set: vec![0x68, 0xeb],
            }),
        })
    );
}

#[test]
fn video_track_keeps_its_fields_whatever_its_handler() {
    let mut summary = video_summary();
    summary.handler = *b"soun";
    summary.pic_param_set = Some(vec![]);
    summary.profile = Some(2);
    let config = video_track_config(Some(summary)).unwrap();
    assert_eq!(config.track_type, TrackType::Video);
    assert_eq!(
        config.media_conf,
        MediaConfig::Avc(AvcConfig {
            width: 640,
            height: 360,
            seq_param_set: vec![0x67, 0x64, 0x00, 0x0d, 0xac],
            pic_param_set: vec![],
        })
    );
}

#[test]
fn video_track_needs_both_parameter_sets() {
    assert_eq!(video_track_config(None), Err(RemuxError::MissingTrack));
    let mut summary = video_summary();
    summary.seq_param_set = None;
    assert_eq!(video_track_config(Some(summary)), Err(RemuxError::MissingParameterSet));
    let mut summary = video_summary();
    summary.pic_param_set = None;
    assert_eq!(video_track_config(Some(summary)), Err(RemuxError::MissingParameterSet));
    assert_eq!(video_track_config(Some(audio_summary())), Err(RemuxError::MissingParameterSet));
}

#[test]
fn sequence_parameter_set_needs_its_profile_and_level_bytes() {
    let mut summary = video_summary();
    summary.seq_param_set = Some(vec![0x67, 0x64, 0x00]);
    assert_eq!(video_track_config(Some(summary)), Err(RemuxError::MissingParameterSet));
    let mut summary = video_summary();
    summary.seq_param_set = Some(vec![]);
    assert_eq!(video_track_config(Some(summary)), Err(RemuxError::MissingParameterSet));
    let mut summary = video_summary();
    summary.seq_param_set = Some(vec![0x67, 0x64, 0x00, 0x0d]);
    assert!(video_track_config(Some(summary)).is_ok());
}

#[test]
fn audio_track_is_declared_from_its_summary_and_bitrate() {
    assert_eq!(
        audio_track_config(Some(audio_summary()), Some(128000)),
        Ok(TrackConfig {
            track_type: TrackType::Audio,
            timescale: 48000,
            language: "jpn".to_string(),
            media_conf: MediaConfig::Aac(AacConfig {
                bitrate: 128000,
                profile: 2,
                freq_index: 3,
                chan_conf: 2,
            }),
        })
    );
}

#[test]
fn audio_track_needs_its_three_codes_and_a_bitrate() {
    assert_eq!(audio_track_config(None, None), Err(RemuxError::MissingTrack));
    assert_eq!(audio_track_config(None, Some(1)), Err(RemuxError::MissingTrack));
    let mut summary = audio_summary();
    summary.profile = None;
    assert_eq!(audio_track_config(Some(summary), Some(1)), Err(RemuxError::MissingAudioConfig));
    let mut summary = audio_summary();
    summary.freq_index = None;
    assert_eq!(audio_track_config(Some(summary), Some(1)), Err(RemuxError::MissingAudioConfig));
    let mut summary = audio_summary();
    summary.chan_conf = None;
    assert_eq!(audio_track_config(Some(summary), Some(1)), Err(RemuxError::MissingAudioConfig));
    assert_eq!(
        audio_track_config(Some(audio_summary()), None),
        Err(RemuxError::MissingAudioConfig)
    );
    assert_eq!(
        audio_track_config(Some(video_summary()), Some(1)),
        Err(RemuxError::MissingAudioConfig)
    );
}

#[test]
fn kinds_know_their_handler_codes() {
    assert!(TrackType::Video.handles(b"vide"));
    assert!(TrackType::Audio.handles(b"soun"));
    assert!(!TrackType::Video.handles(b"soun"));
    assert!(!TrackType::Audio.handles(b"vide"));
    assert!(!TrackType::Video.handles(b"vidf"));
    assert!(!TrackType::Video.handles(b"Vide"));
    assert!(!TrackType::Audio.handles(b"sbtl"));
    assert!(!TrackType::Audio.handles(&[0; 4]));
}

#[test]
fn audio_track_needs_codes_that_are_known() {
    for profile in [0u8, 10, 11, 18, 31, 47, 255] {
        let mut summary = audio_summary();
        summary.profile = Some(profile);
        assert_eq!(
            audio_track_config(Some(summary), Some(1)),
            Err(RemuxError::MissingAudioConfig)
        );
    }
    for profile in [1u8, 9, 12, 17, 19, 30, 32, 46] {
        let mut summary = audio_summary();
        summary.profile = Some(profile);
        assert!(audio_track_config(Some(summary), Some(1)).is_ok());
    }
    for (freq_index, known) in [(0u8, true), (12, true), (13, false), (15, false)] {
        let mut summary = audio_summary();
        summary.freq_index = Some(freq_index);
        assert_eq!(audio_track_config(Some(summary), Some(1)).is_ok(), known);
    }
    for (chan_conf, known) in [(0u8, false), (1, true), (7, true), (8, false)] {
        let mut summary = audio_summary();
        summary.chan_conf = Some(chan_conf);
        assert_eq!(audio_track_config(Some(summary), Some(1)).is_ok(), known);
    }
}
