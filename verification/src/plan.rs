use vstd::prelude::*;

use crate::error::RemuxError;
use crate::media::{
    known_chan_conf, known_freq_index, known_profile, AacConfig, AvcConfig, MediaConfig,
    MediaConfigView, TrackConfig, TrackConfigView, TrackSummary, TrackSummaryView, TrackType,
};
use crate::source::{parsed_bitrate, parsed_order, parsed_track, summary_view, Source};

verus! {

/// The identifier under which a video source holds its track by
/// convention, and the number of the video track of the output.
pub const VIDEO_TRACK: u32 = 1;

/// The identifier under which an audio source holds its track by
/// convention, and the number of the audio track of the output.
pub const AUDIO_TRACK: u32 = 2;

/// The tracks to take from the two sources, by their identifiers. `None`
/// stands for a source that has no track to take.
#[derive(Debug, Clone, Copy, PartialEq, Eq, Structural)]
pub struct Selection {
    pub video: Option<u32>,
    pub audio: Option<u32>,
}

impl Selection {
    /// The tracks with the conventional identifiers.
    pub open spec fn conventional() -> Selection {
        Selection { video: Some(VIDEO_TRACK), audio: Some(AUDIO_TRACK) }
    }

    /// The tracks with the conventional identifiers: 1 in the video source,
    /// 2 in the audio source.
    pub fn fixed() -> (r: Selection)
        ensures
            r == Selection::conventional(),
    {
        Selection { video: Some(VIDEO_TRACK), audio: Some(AUDIO_TRACK) }
    }
}

/// The declaration of the output's video track for a given track of the
/// video source, or the reason why there is none.
pub open spec fn planned_video(track: Option<TrackSummaryView>) -> Result<
    TrackConfigView,
    RemuxError,
> {
    match track {
        None => Err(RemuxError::MissingTrack),
        Some(t) => match (t.seq_param_set, t.pic_param_set) {
            (Some(sps), Some(pps)) => if sps.len() >= 4 {
                Ok(
                    TrackConfigView {
                        track_type: TrackType::Video,
                        timescale: t.timescale,
                        language: t.language,
                        media_conf: MediaConfigView::Avc {
                            width: t.width,
                            height: t.height,
                            seq_param_set: sps,
                            pic_param_set: pps,
                        },
                    },
                )
            } else {
                Err(RemuxError::MissingParameterSet)
            },
            _ => Err(RemuxError::MissingParameterSet),
        },
    }
}

/// The declaration of the output's audio track for a given track of the
/// audio source and its bitrate, or the reason why there is none.
pub open spec fn planned_audio(track: Option<TrackSummaryView>, bitrate: Option<u32>) -> Result<
    TrackConfigView,
    RemuxError,
> {
    match track {
        None => Err(RemuxError::MissingTrack),
        Some(t) => match (t.profile, t.freq_index, t.chan_conf, bitrate) {
            (Some(profile), Some(freq_index), Some(chan_conf), Some(bitrate)) => if known_profile(
                profile,
            ) && known_freq_index(freq_index) && known_chan_conf(chan_conf) {
                Ok(
                    TrackConfigView {
                        track_type: TrackType::Audio,
                        timescale: t.timescale,
                        language: t.language,
                        media_conf: MediaConfigView::Aac {
                            bitrate,
                            profile,
                            freq_index,
                            chan_conf,
                        },
                    },
                )
            } else {
                Err(RemuxError::MissingAudioConfig)
            },
            _ => Err(RemuxError::MissingAudioConfig),
        },
    }
}

/// The view of a track declaration or of the reason why there is none.
pub open spec fn plan_view(plan: Result<TrackConfig, RemuxError>) -> Result<
    TrackConfigView,
    RemuxError,
> {
    match plan {
        Ok(config) => Ok(config@),
        Err(e) => Err(e),
    }
}

/// Declares the output's video track from what the video source says of
/// its track. The track must be there and carry both parameter sets, the
/// sequence parameter set with its profile and level bytes.
pub fn video_track_config(track: Option<TrackSummary>) -> (r: Result<TrackConfig, RemuxError>)
    ensures
        plan_view(r) == planned_video(summary_view(track)),
{
    let track = match track {
        Some(track) => track,
        None => { return Err(RemuxError::MissingTrack); },
    };
    let seq_param_set = match track.seq_param_set {
        Some(sps) => sps,
        None => { return Err(RemuxError::MissingParameterSet); },
    };
    let pic_param_set = match track.pic_param_set {
        Some(pps) => pps,
        None => { return Err(RemuxError::MissingParameterSet); },
    };
    if seq_param_set.len() < 4 {
        return Err(RemuxError::MissingParameterSet);
    }
    Ok(
        TrackConfig {
            track_type: TrackType::Video,
            timescale: track.timescale,
            language: track.language,
            media_conf: MediaConfig::Avc(
                AvcConfig { width: track.width, height: track.height, seq_param_set, pic_param_set },
            ),
        },
    )
}

/// Declares the output's audio track from what the audio source says of
/// its track and from the track's bitrate. The track must be there and carry
/// a profile, a sampling-frequency index and a channel configuration, all
/// three of them known codes.
pub fn audio_track_config(track: Option<TrackSummary>, bitrate: Option<u32>) -> (r: Result<
    TrackConfig,
    RemuxError,
>)
    ensures
        plan_view(r) == planned_audio(summary_view(track), bitrate),
{
    let track = match track {
        Some(track) => track,
        None => { return Err(RemuxError::MissingTrack); },
    };
    match (track.profile, track.freq_index, track.chan_conf, bitrate) {
        (Some(profile), Some(freq_index), Some(chan_conf), Some(bitrate)) => {
            let codes = AacConfig { bitrate, profile, freq_index, chan_conf };
            if !codes.is_known() {
                return Err(RemuxError::MissingAudioConfig);
            }
            Ok(
                TrackConfig {
                    track_type: TrackType::Audio,
                    timescale: track.timescale,
                    language: track.language,
                    media_conf: MediaConfig::Aac(codes),
                },
            )
        },
        _ => Err(RemuxError::MissingAudioConfig),
    }
}

/// The bitrate that a source gives for a track: that of the container,
/// where the track is there and carries an audio profile.
pub open spec fn source_bitrate(bytes: Seq<u8>, track_id: u32) -> Option<u32> {
    match parsed_track(bytes, track_id) {
        Some(t) => if t.profile is Some {
            parsed_bitrate(bytes, track_id)
        } else {
            None
        },
        None => None,
    }
}

/// What a source says of the chosen track, if one is chosen and there.
pub open spec fn chosen_track(bytes: Seq<u8>, track: Option<u32>) -> Option<TrackSummaryView> {
    match track {
        Some(id) => parsed_track(bytes, id),
        None => None,
    }
}

/// The bitrate that a source gives for the chosen track.
pub open spec fn chosen_bitrate(bytes: Seq<u8>, track: Option<u32>) -> Option<u32> {
    match track {
        Some(id) => source_bitrate(bytes, id),
        None => None,
    }
}

/// The declaration of the output's video track for a video source and the
/// track chosen from it.
pub open spec fn video_plan(video: Seq<u8>, track: Option<u32>) -> Result<
    TrackConfigView,
    RemuxError,
> {
    planned_video(chosen_track(video, track))
}

/// The declaration of the output's audio track for an audio source and the
/// track chosen from it.
pub open spec fn audio_plan(audio: Seq<u8>, track: Option<u32>) -> Result<
    TrackConfigView,
    RemuxError,
> {
    planned_audio(chosen_track(audio, track), chosen_bitrate(audio, track))
}

/// Whether a source holds a track of the given kind under this identifier.
pub open spec fn is_kind(bytes: Seq<u8>, track_id: u32, kind: TrackType) -> bool {
    parsed_track(bytes, track_id) matches Some(t) && t.handler@ == kind.handler_code()
}

/// The first identifier in `order` under which a source holds a track of
/// the given kind.
pub open spec fn first_of_kind(order: Seq<u32>, bytes: Seq<u8>, kind: TrackType) -> Option<u32>
    decreases order.len(),
{
    if order.len() == 0 {
        None
    } else if is_kind(bytes, order[0], kind) {
        Some(order[0])
    } else {
        first_of_kind(order.skip(1), bytes, kind)
    }
}

/// The tracks that a selection by kind takes: the first video track that
/// the video source lists, and the first audio track that the audio source
/// lists.
pub open spec fn typed_selection(video: Seq<u8>, audio: Seq<u8>) -> Selection {
    Selection {
        video: first_of_kind(parsed_order(video), video, TrackType::Video),
        audio: first_of_kind(parsed_order(audio), audio, TrackType::Audio),
    }
}

/// Finds the first track of the given kind that a source lists. There is
/// none exactly where the source holds no track of this kind.
pub fn first_track(source: &Source, kind: TrackType) -> (r: Option<u32>)
    ensures
        r == first_of_kind(parsed_order(source.bytes()), source.bytes(), kind),
        r matches Some(id) ==> is_kind(source.bytes(), id, kind),
        r is None ==> forall|id: u32| !is_kind(source.bytes(), id, kind),
{
    let ids = source.track_ids();
    let ghost bytes = source.bytes();
    let mut i: usize = 0;
    proof {
        assert(ids@.skip(0) =~= ids@);
    }
    while i < ids.len()
        invariant
            0 <= i <= ids@.len(),
            bytes == source.bytes(),
            ids@ == parsed_order(bytes),
            first_of_kind(ids@, bytes, kind) == first_of_kind(ids@.skip(i as int), bytes, kind),
            forall|j: int| 0 <= j < i ==> !is_kind(bytes, #[trigger] ids@[j], kind),
        decreases ids@.len() - i,
    {
        let id = ids[i];
        let found = match source.track(id) {
            Some(summary) => kind.handles(&summary.handler),
            None => false,
        };
        proof {
            assert(ids@.skip(i as int)[0] == id);
            assert(ids@.skip(i as int).skip(1) =~= ids@.skip(i + 1));
        }
        if found {
            return Some(id);
        }
        i = i + 1;
    }
    proof {
        assert(ids@.skip(i as int).len() == 0);
        assert forall|id: u32| !is_kind(bytes, id, kind) by {
            if is_kind(bytes, id, kind) {
                assert(ids@.contains(id));
                let j = choose|j: int| 0 <= j < ids@.len() && ids@[j] == id;
                assert(!is_kind(bytes, ids@[j], kind));
            }
        }
    }
    None
}

/// Chooses the tracks by their kind: the first video track of the video
/// source and the first audio track of the audio source.
pub fn select_by_type(video: &Source, audio: &Source) -> (r: Selection)
    ensures
        r == typed_selection(video.bytes(), audio.bytes()),
{
    Selection {
        video: first_track(video, TrackType::Video),
        audio: first_track(audio, TrackType::Audio),
    }
}

} // verus!
