use vstd::prelude::*;

use crate::error::RemuxError;
use crate::media::SampleView;
use crate::plan::{
    audio_plan, audio_track_config, select_by_type, typed_selection, video_plan,
    video_track_config, Selection, AUDIO_TRACK, VIDEO_TRACK,
};
use crate::sink::{
    container_bytes, fits, lemma_fits_prefix, lemma_samples_of_tagged, samples_of, tagged,
    Layout, Sink,
};
use crate::source::{
    nth_sample, opens, parsed_config, parsed_sample_count, track_readable, Source, TrackReader,
};

verus! {

/// The failure that the headers of the two sources alone decide, if any:
/// a source that does not open, then a fault of the video track, then a
/// fault of the audio track.
pub open spec fn static_fault(video: Seq<u8>, audio: Seq<u8>, tracks: Selection) -> Option<
    RemuxError,
> {
    if !opens(video) || !opens(audio) {
        Some(RemuxError::Open)
    } else if video_plan(video, tracks.video) is Err {
        Some(video_plan(video, tracks.video)->Err_0)
    } else if audio_plan(audio, tracks.audio) is Err {
        Some(audio_plan(audio, tracks.audio)->Err_0)
    } else {
        None
    }
}

/// The samples of a track of a source, in the order of their indices.
pub open spec fn track_samples(bytes: Seq<u8>, track_id: u32) -> Seq<SampleView> {
    Seq::new(
        parsed_sample_count(bytes, track_id).unwrap() as nat,
        |i: int| nth_sample(bytes, track_id, i).unwrap(),
    )
}

/// Whether every sample of a track of a source can be read: the track's
/// tables are sound and the container yields each sample that it counts.
pub open spec fn all_readable(bytes: Seq<u8>, track_id: u32) -> bool {
    &&& track_readable(bytes, track_id)
    &&& forall|i: int|
        0 <= i < parsed_sample_count(bytes, track_id).unwrap() ==> (#[trigger] nth_sample(
            bytes,
            track_id,
            i,
        )) is Some
}

/// What the output of a remux holds: the header of the video source, the
/// video track and then the audio track, and all samples of the video track
/// followed by all samples of the audio track, each run in the order of
/// its source.
pub open spec fn remux_layout(video: Seq<u8>, audio: Seq<u8>, tracks: Selection) -> Layout {
    Layout {
        config: parsed_config(video),
        tracks: seq![
            video_plan(video, tracks.video).unwrap(),
            audio_plan(audio, tracks.audio).unwrap(),
        ],
        writes: tagged(track_samples(video, tracks.video.unwrap()), 0) + tagged(
            track_samples(audio, tracks.audio.unwrap()),
            1,
        ),
    }
}

/// Whether the chosen tracks of the two sources can be copied whole: every
/// sample can be read, and the samples of each track fit the track that is
/// declared for it, in a container with the timescale of the video source.
pub open spec fn copyable(video: Seq<u8>, audio: Seq<u8>, tracks: Selection) -> bool {
    &&& tracks.video is Some
    &&& tracks.audio is Some
    &&& all_readable(video, tracks.video.unwrap())
    &&& all_readable(audio, tracks.audio.unwrap())
    &&& fits(
        track_samples(video, tracks.video.unwrap()),
        video_plan(video, tracks.video).unwrap(),
        parsed_config(video).timescale,
    )
    &&& fits(
        track_samples(audio, tracks.audio.unwrap()),
        audio_plan(audio, tracks.audio).unwrap(),
        parsed_config(video).timescale,
    )
}

/// What a remux of the chosen tracks of two sources returns. A failure that
/// the headers decide is returned as it is. Otherwise, where the tracks are
/// copyable, the remux succeeds and returns the finished container for
/// `remux_layout`; where they are not, the copy fails.
pub open spec fn remux_result(video: Seq<u8>, audio: Seq<u8>, tracks: Selection) -> Result<
    Seq<u8>,
    RemuxError,
> {
    match static_fault(video, audio, tracks) {
        Some(e) => Err(e),
        None => if copyable(video, audio, tracks) {
            Ok(container_bytes(remux_layout(video, audio, tracks)))
        } else {
            Err(RemuxError::SampleIo)
        },
    }
}

/// The view of the bytes that a remux returns, or of its failure.
pub open spec fn output_view(result: Result<Vec<u8>, RemuxError>) -> Result<Seq<u8>, RemuxError> {
    match result {
        Ok(bytes) => Ok(bytes@),
        Err(e) => Err(e),
    }
}

/// Whether the samples of a source track can be appended, after the samples
/// that the track of `layout` numbered `sink_track` holds already: if there
/// is a sample to append, the track is declared and all its samples fit it
/// together.
pub open spec fn appendable(layout: Layout, sink_track: u32, samples: Seq<SampleView>) -> bool {
    samples.len() >= 1 ==> {
        &&& 1 <= sink_track <= layout.tracks.len()
        &&& fits(
            layout.track_samples(sink_track - 1) + samples,
            layout.tracks[sink_track - 1],
            layout.config.timescale,
        )
    }
}

/// Copies every sample of a source track, in the order of the indices, to
/// the track of `sink` numbered `sink_track`, counting from 1. One sample is
/// held at a time. It succeeds exactly where every sample can be read and
/// the samples can be appended; else it stops at the first sample that
/// cannot be read or appended.
pub fn copy_track(track: TrackReader, sink: Sink, sink_track: u32) -> (r: Result<Sink, RemuxError>)
    ensures
        r is Ok <==> all_readable(track.bytes(), track.track_id()) && appendable(
            sink.layout(),
            sink_track,
            track_samples(track.bytes(), track.track_id()),
        ),
        match r {
            Ok(done) => done.layout() == sink.layout().with_samples(
                sink_track - 1,
                track_samples(track.bytes(), track.track_id()),
            ),
            Err(e) => e == RemuxError::SampleIo,
        },
{
    let count = track.len();
    let ghost bytes = track.bytes();
    let ghost id = track.track_id();
    let ghost start = sink.layout();
    let ghost samples = track_samples(bytes, id);
    let ghost k = sink_track - 1;
    let ghost held = start.track_samples(k);
    let mut reader = track;
    let mut out = sink;
    let mut i: u32 = 0;
    proof {
        assert(start.writes + tagged(samples.take(0), k) =~= start.writes);
    }
    while i < count
        invariant
            i <= count,
            count == reader.count(),
            count == samples.len(),
            reader.bytes() == bytes,
            reader.track_id() == id,
            bytes == track.bytes(),
            id == track.track_id(),
            start == sink.layout(),
            Some(count) == parsed_sample_count(bytes, id),
            track_readable(bytes, id),
            samples == track_samples(bytes, id),
            k == sink_track - 1,
            held == start.track_samples(k),
            forall|j: int| 0 <= j < i ==> (#[trigger] nth_sample(bytes, id, j)) is Some,
            out.layout() == start.with_samples(k, samples.take(i as int)),
            i >= 1 ==> {
                &&& 1 <= sink_track <= start.tracks.len()
                &&& fits(held + samples.take(i as int), start.tracks[k], start.config.timescale)
            },
        decreases count - i,
    {
        let (sample, rest) = match reader.read(i) {
            Ok(pair) => pair,
            Err(e) => {
                proof {
                    assert(nth_sample(bytes, id, i as int) is None);
                    assert(!all_readable(bytes, id));
                }
                return Err(e);
            },
        };
        reader = rest;
        let ghost before = out.layout();
        let ghost added = sample@;
        proof {
            assert(samples[i as int] == added);
            assert(samples.take(i + 1) =~= samples.take(i as int).push(added));
            lemma_samples_of_tagged(start.writes, k, samples.take(i as int), k);
            assert((held + samples.take(i as int)).push(added) =~= held + samples.take(i + 1));
            assert(held + samples.take(i + 1) =~= (held + samples).take(held.len() + i + 1));
            assert(before.track_samples(k) == held + samples.take(i as int));
            if appendable(start, sink_track, samples) {
                lemma_fits_prefix(
                    held + samples,
                    held.len() + i + 1,
                    start.tracks[k],
                    start.config.timescale,
                );
                assert(before.accepts_sample(sink_track, added));
            }
        }
        out = match out.write_sample(sink_track, sample) {
            Ok(next) => next,
            Err(e) => { return Err(e); },
        };
        proof {
            assert(before.writes.push((k, added)) =~= start.writes + tagged(
                samples.take(i + 1),
                k,
            ));
        }
        i = i + 1;
    }
    proof {
        assert(samples.take(i as int) =~= samples);
    }
    Ok(out)
}

/// Remuxes the chosen tracks of two opened sources into the bytes of one
/// container. The header of the output is that of the video source; its
/// tracks are the chosen track of the video source and the chosen track of
/// the audio source, in this order, each with all its samples.
pub fn remux_tracks(video: Source, audio: Source, tracks: Selection) -> (r: Result<
    Vec<u8>,
    RemuxError,
>)
    ensures
        output_view(r) == remux_result(video.bytes(), audio.bytes(), tracks),
{
    video.recall_opened();
    audio.recall_opened();
    let config = video.config();
    let video_summary = match tracks.video {
        Some(id) => video.track(id),
        None => None,
    };
    let video_config = match video_track_config(video_summary) {
        Ok(config) => config,
        Err(e) => { return Err(e); },
    };
    let (audio_summary, bitrate) = match tracks.audio {
        Some(id) => (audio.track(id), audio.bitrate(id)),
        None => (None, None),
    };
    let audio_config = match audio_track_config(audio_summary, bitrate) {
        Ok(config) => config,
        Err(e) => { return Err(e); },
    };
    let video_id = tracks.video.unwrap();
    let audio_id = tracks.audio.unwrap();
    let sink = match Sink::start(&config) {
        Ok(sink) => sink,
        Err(e) => { return Err(e); },
    };
    let sink = match sink.add_track(&video_config) {
        Ok(sink) => sink,
        Err(e) => { return Err(e); },
    };
    let sink = match sink.add_track(&audio_config) {
        Ok(sink) => sink,
        Err(e) => { return Err(e); },
    };
    let ghost declared = sink.layout();
    let ghost v = video.bytes();
    let ghost a = audio.bytes();
    let ghost vs = track_samples(v, video_id);
    let ghost aus = track_samples(a, audio_id);
    proof {
        assert(declared.writes =~= Seq::empty());
        assert(declared.tracks =~= seq![video_config@, audio_config@]);
        assert(samples_of(declared.writes, 0) =~= Seq::empty());
        assert(Seq::<SampleView>::empty() + vs =~= vs);
        assert(Seq::<SampleView>::empty() + aus =~= aus);
    }
    let video_track = match video.into_track(video_id) {
        Ok(track) => track,
        Err(e) => { return Err(e); },
    };
    let sink = match copy_track(video_track, sink, VIDEO_TRACK) {
        Ok(sink) => sink,
        Err(e) => { return Err(e); },
    };
    let ghost half = sink.layout();
    proof {
        lemma_samples_of_tagged(declared.writes, 0, vs, 0);
        lemma_samples_of_tagged(declared.writes, 0, vs, 1);
        assert(samples_of(declared.writes, 1) =~= Seq::empty());
        assert(half.track_samples(1) =~= Seq::empty());
    }
    let audio_track = match audio.into_track(audio_id) {
        Ok(track) => track,
        Err(e) => { return Err(e); },
    };
    let sink = match copy_track(audio_track, sink, AUDIO_TRACK) {
        Ok(sink) => sink,
        Err(e) => { return Err(e); },
    };
    proof {
        assert(sink.layout().writes =~= remux_layout(v, a, tracks).writes);
        assert(sink.layout() == remux_layout(v, a, tracks));
    }
    sink.finish()
}

/// Remuxes two opened sources into the bytes of one container, taking the
/// track numbered 1 of the video source and the track numbered 2 of the
/// audio source.
pub fn remux_sources(video: Source, audio: Source) -> (r: Result<Vec<u8>, RemuxError>)
    ensures
        output_view(r) == remux_result(video.bytes(), audio.bytes(), Selection::conventional()),
{
    remux_tracks(video, audio, Selection::fixed())
}

/// Remuxes the bytes of a video-only container and of an audio-only
/// container into the bytes of one container with both tracks, taking the
/// track numbered 1 of the video source and the track numbered 2 of the
/// audio source.
pub fn remux(video: Vec<u8>, audio: Vec<u8>) -> (r: Result<Vec<u8>, RemuxError>)
    ensures
        output_view(r) == remux_result(video@, audio@, Selection::conventional()),
{
    let video = match Source::open(video) {
        Ok(source) => source,
        Err(e) => { return Err(e); },
    };
    let audio = match Source::open(audio) {
        Ok(source) => source,
        Err(e) => { return Err(e); },
    };
    remux_sources(video, audio)
}

/// Remuxes the bytes of two containers like `remux`, but takes the first
/// video track that the video source lists and the first audio track that
/// the audio source lists, whatever their identifiers. A source without a
/// track of its kind has no track to take.
pub fn remux_by_type(video: Vec<u8>, audio: Vec<u8>) -> (r: Result<Vec<u8>, RemuxError>)
    ensures
        output_view(r) == remux_result(video@, audio@, typed_selection(video@, audio@)),
{
    let video = match Source::open(video) {
        Ok(source) => source,
        Err(e) => { return Err(e); },
    };
    let audio = match Source::open(audio) {
        Ok(source) => source,
        Err(e) => { return Err(e); },
    };
    let tracks = select_by_type(&video, &audio);
    remux_tracks(video, audio, tracks)
}

} // verus!
