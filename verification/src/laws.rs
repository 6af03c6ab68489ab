use vstd::prelude::*;

use crate::error::RemuxError;
use crate::media::{SampleView, TrackType};
use crate::mux::{copyable, remux_layout, remux_result, static_fault, track_samples};
use crate::plan::{chosen_track, first_of_kind, is_kind, Selection};
use crate::sink::{container_bytes, lemma_samples_of_tagged, tagged};
use crate::source::{nth_sample, opens, parsed_config, parsed_sample_count};

verus! {

/// The tracks of `remux_layout` hold the samples of the two source tracks.
proof fn lemma_layout_tracks(video: Seq<u8>, audio: Seq<u8>, tracks: Selection)
    ensures
        remux_layout(video, audio, tracks).track_samples(0) == track_samples(
            video,
            tracks.video.unwrap(),
        ),
        remux_layout(video, audio, tracks).track_samples(1) == track_samples(
            audio,
            tracks.audio.unwrap(),
        ),
{
    let vs = track_samples(video, tracks.video.unwrap());
    let aus = track_samples(audio, tracks.audio.unwrap());
    let none = Seq::<(int, SampleView)>::empty();
    assert(none + tagged(vs, 0) =~= tagged(vs, 0));
    lemma_samples_of_tagged(none, 0, vs, 0);
    lemma_samples_of_tagged(none, 0, vs, 1);
    lemma_samples_of_tagged(tagged(vs, 0), 1, aus, 0);
    lemma_samples_of_tagged(tagged(vs, 0), 1, aus, 1);
    assert(Seq::<SampleView>::empty() + vs =~= vs);
    assert(Seq::<SampleView>::empty() + aus =~= aus);
}

/// Whether a remux of the chosen tracks of two sources is owed success: the
/// headers decide no failure and the tracks are copyable.
pub open spec fn remuxable(video: Seq<u8>, audio: Seq<u8>, tracks: Selection) -> bool {
    static_fault(video, audio, tracks) is None && copyable(video, audio, tracks)
}

/// A remux succeeds exactly on a remuxable pair of sources, and then
/// returns the finished container for `remux_layout`.
pub proof fn lemma_success_owed(video: Seq<u8>, audio: Seq<u8>, tracks: Selection)
    ensures
        remux_result(video, audio, tracks) is Ok <==> remuxable(video, audio, tracks),
        remuxable(video, audio, tracks) ==> remux_result(video, audio, tracks) == Ok::<
            Seq<u8>,
            RemuxError,
        >(container_bytes(remux_layout(video, audio, tracks))),
{
}

/// On a remuxable pair of sources a remux returns a container of exactly
/// two tracks, and each holds as many samples as its source counts for the
/// chosen track.
pub proof fn lemma_sample_counts_kept(video: Seq<u8>, audio: Seq<u8>, tracks: Selection)
    requires
        remuxable(video, audio, tracks),
    ensures
        remux_result(video, audio, tracks) == Ok::<Seq<u8>, RemuxError>(
            container_bytes(remux_layout(video, audio, tracks)),
        ),
        remux_layout(video, audio, tracks).tracks.len() == 2,
        tracks.video is Some && parsed_sample_count(video, tracks.video.unwrap()) is Some,
        tracks.audio is Some && parsed_sample_count(audio, tracks.audio.unwrap()) is Some,
        remux_layout(video, audio, tracks).track_samples(0).len() == parsed_sample_count(
            video,
            tracks.video.unwrap(),
        ).unwrap(),
        remux_layout(video, audio, tracks).track_samples(1).len() == parsed_sample_count(
            audio,
            tracks.audio.unwrap(),
        ).unwrap(),
{
    lemma_layout_tracks(video, audio, tracks);
}

/// On a remuxable pair of sources a remux returns a container in which
/// the sample with index `i` of the video track is the sample with index
/// `i` that the video source yields for the chosen track, byte for byte
/// and with its timing; and likewise for audio, in the second track.
pub proof fn lemma_sample_order_kept(video: Seq<u8>, audio: Seq<u8>, tracks: Selection, i: int)
    requires
        remuxable(video, audio, tracks),
        0 <= i,
    ensures
        remux_result(video, audio, tracks) == Ok::<Seq<u8>, RemuxError>(
            container_bytes(remux_layout(video, audio, tracks)),
        ),
        i < parsed_sample_count(video, tracks.video.unwrap()).unwrap() ==> {
            &&& nth_sample(video, tracks.video.unwrap(), i) is Some
            &&& remux_layout(video, audio, tracks).track_samples(0)[i] == nth_sample(
                video,
                tracks.video.unwrap(),
                i,
            ).unwrap()
            &&& remux_layout(video, audio, tracks).track_samples(0)[i].bytes == nth_sample(
                video,
                tracks.video.unwrap(),
                i,
            ).unwrap().bytes
        },
        i < parsed_sample_count(audio, tracks.audio.unwrap()).unwrap() ==> {
            &&& nth_sample(audio, tracks.audio.unwrap(), i) is Some
            &&& remux_layout(video, audio, tracks).track_samples(1)[i] == nth_sample(
                audio,
                tracks.audio.unwrap(),
                i,
            ).unwrap()
            &&& remux_layout(video, audio, tracks).track_samples(1)[i].bytes == nth_sample(
                audio,
                tracks.audio.unwrap(),
                i,
            ).unwrap().bytes
        },
{
    lemma_layout_tracks(video, audio, tracks);
}

/// On a remuxable pair of sources a remux returns a container whose header
/// is that of the video source, whatever the audio source holds: brands,
/// minor version and timescale.
pub proof fn lemma_header_from_video(
    video: Seq<u8>,
    audio: Seq<u8>,
    other_audio: Seq<u8>,
    tracks: Selection,
)
    requires
        remuxable(video, audio, tracks),
    ensures
        remux_result(video, audio, tracks) == Ok::<Seq<u8>, RemuxError>(
            container_bytes(remux_layout(video, audio, tracks)),
        ),
        remux_layout(video, audio, tracks).config == parsed_config(video),
        remux_layout(video, audio, tracks).config.major_brand == parsed_config(video).major_brand,
        remux_layout(video, audio, tracks).config.minor_version == parsed_config(
            video,
        ).minor_version,
        remux_layout(video, audio, tracks).config.compatible_brands == parsed_config(
            video,
        ).compatible_brands,
        remux_layout(video, audio, tracks).config == remux_layout(
            video,
            other_audio,
            tracks,
        ).config,
{
}

/// Where both sources open and the video source holds the chosen track,
/// but the track lacks a sequence or a picture parameter set, a remux fails
/// with `MissingParameterSet` and returns no bytes.
pub proof fn lemma_missing_parameter_sets(video: Seq<u8>, audio: Seq<u8>, tracks: Selection)
    requires
        opens(video),
        opens(audio),
        chosen_track(video, tracks.video) matches Some(t) && (t.seq_param_set is None
            || t.pic_param_set is None),
    ensures
        remux_result(video, audio, tracks) == Err::<Seq<u8>, RemuxError>(
            RemuxError::MissingParameterSet,
        ),
{
}

/// A source that does not open makes a remux fail with `Open`, whatever
/// else holds, and no bytes are returned.
pub proof fn lemma_unopened_source(video: Seq<u8>, audio: Seq<u8>, tracks: Selection)
    requires
        !opens(video) || !opens(audio),
    ensures
        remux_result(video, audio, tracks) == Err::<Seq<u8>, RemuxError>(RemuxError::Open),
{
}

/// A remux that failed fails again on the same sources, and in the same
/// way: two runs return what the sources fix, so that they return the
/// same.
pub proof fn lemma_failure_repeats(
    video: Seq<u8>,
    audio: Seq<u8>,
    tracks: Selection,
    first: Result<Seq<u8>, RemuxError>,
    second: Result<Seq<u8>, RemuxError>,
)
    requires
        first == remux_result(video, audio, tracks),
        second == remux_result(video, audio, tracks),
        first is Err,
    ensures
        second == first,
{
}

/// A selection by kind takes a track of the kind, and the first one: no
/// identifier that the source lists before it holds a track of the kind.
/// It takes none only where no listed identifier holds one.
pub proof fn lemma_first_of_kind(order: Seq<u32>, bytes: Seq<u8>, kind: TrackType)
    ensures
        match first_of_kind(order, bytes, kind) {
            Some(id) => exists|j: int|
                0 <= j < order.len() && order[j] == id && is_kind(bytes, id, kind) && forall|
                    i: int,
                | 0 <= i < j ==> !is_kind(bytes, #[trigger] order[i], kind),
            None => forall|j: int| 0 <= j < order.len() ==> !is_kind(bytes, #[trigger] order[j], kind),
        },
    decreases order.len(),
{
    if order.len() > 0 && !is_kind(bytes, order[0], kind) {
        let rest = order.skip(1);
        lemma_first_of_kind(rest, bytes, kind);
        match first_of_kind(rest, bytes, kind) {
            Some(id) => {
                let j = choose|j: int|
                    0 <= j < rest.len() && rest[j] == id && is_kind(bytes, id, kind) && forall|
                        i: int,
                    | 0 <= i < j ==> !is_kind(bytes, #[trigger] rest[i], kind);
                assert(order[j + 1] == id);
                assert forall|i: int| 0 <= i < j + 1 implies !is_kind(
                    bytes,
                    #[trigger] order[i],
                    kind,
                ) by {
                    if i > 0 {
                        assert(order[i] == rest[i - 1]);
                    }
                }
            },
            None => {
                assert forall|j: int| 0 <= j < order.len() implies !is_kind(
                    bytes,
                    #[trigger] order[j],
                    kind,
                ) by {
                    if j > 0 {
                        assert(order[j] == rest[j - 1]);
                    }
                }
            },
        }
    } else if order.len() > 0 {
        assert(order[0] == order[0]);
    }
}

} // verus!
