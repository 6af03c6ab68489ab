use vstd::prelude::*;

use crate::error::RemuxError;
use crate::media::{
    ContainerConfig, ContainerConfigView, MediaConfig, MediaConfigView, Sample, SampleView,
    TrackConfig, TrackConfigView, TrackType,
};

verus! {

/// `mp4::Mp4Writer`, the writer of containers. Nothing is known of its
/// inside; `sink_layout` names what it holds.
#[verifier::external_type_specification]
#[verifier::external_body]
#[verifier::reject_recursive_types(W)]
pub struct ExMp4Writer<W>(mp4::Mp4Writer<W>);

/// What an output container holds while it is built: its header, the tracks
/// declared so far, and every sample appended so far, each with the index of
/// its track, in the order of the appends.
pub struct Layout {
    pub config: ContainerConfigView,
    pub tracks: Seq<TrackConfigView>,
    pub writes: Seq<(int, SampleView)>,
}

/// The samples among `writes` that went to the track with index `track`, in
/// the order in which they were appended.
pub open spec fn samples_of(writes: Seq<(int, SampleView)>, track: int) -> Seq<SampleView>
    decreases writes.len(),
{
    if writes.len() == 0 {
        Seq::empty()
    } else if writes.last().0 == track {
        samples_of(writes.drop_last(), track).push(writes.last().1)
    } else {
        samples_of(writes.drop_last(), track)
    }
}

/// The sum of the durations of `samples`, in ticks of their track.
pub open spec fn ticks(samples: Seq<SampleView>) -> nat
    decreases samples.len(),
{
    if samples.len() == 0 {
        0
    } else {
        ticks(samples.drop_last()) + samples.last().duration as nat
    }
}

/// `samples`, each with the index of the track that it goes to.
pub open spec fn tagged(samples: Seq<SampleView>, track: int) -> Seq<(int, SampleView)> {
    Seq::new(samples.len(), |i: int| (track, samples[i]))
}

/// Whether every one of `samples` holds a byte at least.
pub open spec fn filled(samples: Seq<SampleView>) -> bool {
    forall|i: int| 0 <= i < samples.len() ==> (#[trigger] samples[i]).bytes.len() > 0
}

/// Whether the sample with index `i` finds room in the chunk that it is
/// written to. A chunk counts the ticks of its samples in 32 bits. It never
/// counts more than the samples before it and the sample itself last
/// together; and where none of these is empty, the chunk was closed before
/// it counted a second, so that it counts less than a second and the
/// sample.
pub open spec fn paced(samples: Seq<SampleView>, i: int, timescale: u32) -> bool {
    ||| ticks(samples.take(i)) + samples[i].duration <= u32::MAX
    ||| filled(samples.take(i + 1)) && timescale - 1 + samples[i].duration <= u32::MAX
}

/// Whether these samples, and no others, fit a track with this
/// configuration in a container with the timescale `movie_timescale`. If
/// there is a sample, the track counts time; the samples are counted in 32
/// bits; the samples last no longer than 64 bits of ticks of the container;
/// and each finds room in its chunk and holds no more bytes than the track
/// takes.
pub open spec fn fits(samples: Seq<SampleView>, track: TrackConfigView, movie_timescale: u32) -> bool {
    samples.len() >= 1 ==> {
        &&& track.timescale >= 1
        &&& samples.len() + 1 <= u32::MAX
        &&& ticks(samples) * movie_timescale <= u64::MAX
        &&& forall|i: int|
            0 <= i < samples.len() ==> #[trigger] paced(samples, i, track.timescale)
                && samples[i].bytes.len() <= track.media_conf.sample_limit()
    }
}

impl Layout {
    /// A container that holds its header and nothing else.
    pub open spec fn start(config: ContainerConfigView) -> Layout {
        Layout { config, tracks: Seq::empty(), writes: Seq::empty() }
    }

    /// This container with one more track declared.
    pub open spec fn with_track(self, track: TrackConfigView) -> Layout {
        Layout { tracks: self.tracks.push(track), ..self }
    }

    /// This container with one more sample appended to the track with index
    /// `track`.
    pub open spec fn with_sample(self, track: int, sample: SampleView) -> Layout {
        Layout { writes: self.writes.push((track, sample)), ..self }
    }

    /// This container with `samples` appended, in order, to the track with
    /// index `track`.
    pub open spec fn with_samples(self, track: int, samples: Seq<SampleView>) -> Layout {
        Layout { writes: self.writes + tagged(samples, track), ..self }
    }

    /// The samples of the track with index `track`, in order.
    pub open spec fn track_samples(self, track: int) -> Seq<SampleView> {
        samples_of(self.writes, track)
    }

    /// Whether a track with this configuration may be declared now: no
    /// sample has been appended yet, a sequence parameter set is long
    /// enough to hold its profile and level bytes, and the codes of an AAC
    /// configuration are known.
    pub open spec fn accepts_track(self, track: TrackConfigView) -> bool {
        &&& self.writes.len() == 0
        &&& self.tracks.len() < u32::MAX
        &&& track.media_conf matches MediaConfigView::Avc { seq_param_set, .. }
            ==> seq_param_set.len() >= 4
        &&& track.media_conf.known()
    }

    /// Whether `sample` may be appended now to the track numbered `track_id`,
    /// counting from 1: the track is declared, and its samples still fit
    /// it with this one.
    pub open spec fn accepts_sample(self, track_id: u32, sample: SampleView) -> bool {
        &&& 1 <= track_id <= self.tracks.len()
        &&& fits(
            self.track_samples(track_id - 1).push(sample),
            self.tracks[track_id - 1],
            self.config.timescale,
        )
    }

    /// Whether the container can be finished: the samples of each declared
    /// track fit it.
    pub open spec fn finishes(self) -> bool {
        forall|k: int|
            0 <= k < self.tracks.len() ==> fits(
                #[trigger] self.track_samples(k),
                self.tracks[k],
                self.config.timescale,
            )
    }
}

/// The contents of an `mp4::Mp4Writer` over a byte buffer: the header it was
/// started with, the tracks added and the samples written.
pub uninterp spec fn sink_layout(writer: mp4::Mp4Writer<std::io::Cursor<Vec<u8>>>) -> Layout;

/// The bytes of the finished container that `mp4::Mp4Writer` produces, from
/// an empty buffer, for given contents.
pub uninterp spec fn container_bytes(layout: Layout) -> Seq<u8>;

/// `mp4::Mp4Writer::write_start` on an empty buffer. It writes the file
/// type box and two box headers into the buffer, which takes every write,
/// and so succeeds; the writer then holds the given header, no track and no
/// sample.
#[verifier::external_body]
fn write_start(config: &ContainerConfig) -> (r: Result<
    mp4::Mp4Writer<std::io::Cursor<Vec<u8>>>,
    mp4::Error,
>)
    ensures
        r is Ok,
        r matches Ok(writer) ==> sink_layout(writer) == Layout::start(config@),
{
    let header = mp4::Mp4Config {
        major_brand: config.major_brand.into(),
        minor_version: config.minor_version,
        compatible_brands: config.compatible_brands.iter().map(|b| (*b).into()).collect(),
        timescale: config.timescale,
    };
    mp4::Mp4Writer::write_start(std::io::Cursor::new(Vec::new()), &header)
}

/// `mp4::Mp4Writer::add_track`. The writer numbers its tracks in 32 bits
/// and copies the three bytes after the first out of a sequence parameter
/// set, hence the two bounds. It succeeds exactly where the outside crate
/// knows the three codes of an AAC configuration: the audio object type,
/// the index of the sampling frequency and the channel configuration. The
/// track then stands last among the declared tracks.
#[verifier::external_body]
fn add_track(writer: &mut mp4::Mp4Writer<std::io::Cursor<Vec<u8>>>, config: &TrackConfig) -> (r:
    Result<(), mp4::Error>)
    requires
        sink_layout(*old(writer)).tracks.len() < u32::MAX,
        config@.media_conf matches MediaConfigView::Avc { seq_param_set, .. }
            ==> seq_param_set.len() >= 4,
    ensures
        r is Ok <==> config@.media_conf.known(),
        r is Ok ==> sink_layout(*final(writer)) == sink_layout(*old(writer)).with_track(config@),
{
    let media_conf = match &config.media_conf {
        MediaConfig::Avc(c) => mp4::MediaConfig::AvcConfig(mp4::AvcConfig {
            width: c.width, height: c.height, seq_param_set: c.seq_param_set.clone(),
            pic_param_set: c.pic_param_set.clone() }),
        MediaConfig::Aac(c) => mp4::MediaConfig::AacConfig(mp4::AacConfig {
            bitrate: c.bitrate, profile: c.profile.try_into()?,
            freq_index: c.freq_index.try_into()?, chan_conf: c.chan_conf.try_into()? }),
    };
    let (timescale, language) = (config.timescale, config.language.clone());
    let track_type = match config.track_type {
        TrackType::Video => mp4::TrackType::Video,
        TrackType::Audio => mp4::TrackType::Audio,
    };
    writer.add_track(&mp4::TrackConfig { track_type, timescale, language, media_conf })
}

/// `mp4::Mp4Writer::write_sample`. On success the sample stands last among
/// the writes, under the index of its track. The writer divides by the
/// track's timescale, counts the track's samples, the bytes of a sample and
/// the ticks of a chunk in 32 bits, and the track's duration, in ticks of
/// the container, in 64 bits: hence the demand that the samples fit. It
/// closes a chunk that holds bytes as soon as the chunk counts a second.
/// Under this demand it finds the track and writes into the buffer, which
/// takes every write, and so succeeds.
#[verifier::external_body]
fn write_sample(
    writer: &mut mp4::Mp4Writer<std::io::Cursor<Vec<u8>>>,
    track_id: u32,
    sample: Sample,
) -> (r: Result<(), mp4::Error>)
    requires
        sink_layout(*old(writer)).accepts_sample(track_id, sample@),
    ensures
        r is Ok,
        sink_layout(*final(writer)) == sink_layout(*old(writer)).with_sample(
            track_id - 1,
            sample@,
        ),
{
    let sample = mp4::Mp4Sample {
        start_time: sample.start_time,
        duration: sample.duration,
        rendering_offset: sample.rendering_offset,
        is_sync: sample.is_sync,
        bytes: sample.bytes.into(),
    };
    writer.write_sample(track_id, &sample)
}

/// `mp4::Mp4Writer::write_end`, then the buffer that the writer filled. The
/// writer writes the largest size of a sample of an AAC track in 24 bits,
/// and the outside crate that packs the number stops the program where it
/// does not fit: hence the demand that the samples fit their tracks. Under
/// it the writer writes its boxes into the buffer, which takes every write,
/// and so succeeds; the bytes are those of the finished container for the
/// writer's contents.
#[verifier::external_body]
fn write_end(writer: mp4::Mp4Writer<std::io::Cursor<Vec<u8>>>) -> (r: Result<Vec<u8>, mp4::Error>)
    requires
        sink_layout(writer).finishes(),
    ensures
        r is Ok,
        r matches Ok(bytes) ==> bytes@ == container_bytes(sink_layout(writer)),
{
    let mut writer = writer;
    writer.write_end()?;
    Ok(writer.into_writer().into_inner())
}

/// What a `Sink` remembers of one declared track, so that it can tell
/// whether the next sample fits.
struct TrackState {
    timescale: u32,
    limit: u32,
    ticks: u64,
    samples: u32,
    filled: bool,
}

/// Whether `states` describes the tracks of `layout`, and the samples of
/// each track fit it.
spec fn shadows(states: Seq<TrackState>, layout: Layout) -> bool {
    &&& states.len() == layout.tracks.len()
    &&& forall|k: int|
        0 <= k < states.len() ==> {
            &&& (#[trigger] states[k]).timescale == layout.tracks[k].timescale
            &&& states[k].limit == layout.tracks[k].media_conf.sample_limit()
            &&& states[k].ticks == ticks(layout.track_samples(k))
            &&& states[k].samples == layout.track_samples(k).len()
            &&& states[k].filled == filled(layout.track_samples(k))
            &&& fits(layout.track_samples(k), layout.tracks[k], layout.config.timescale)
        }
}

/// Samples last no longer than 32 bits of ticks each.
proof fn lemma_ticks_bound(samples: Seq<SampleView>)
    ensures
        ticks(samples) <= samples.len() * u32::MAX,
    decreases samples.len(),
{
    if samples.len() > 0 {
        lemma_ticks_bound(samples.drop_last());
        assert(ticks(samples) <= (samples.len() - 1) * u32::MAX + u32::MAX);
        assert((samples.len() - 1) * u32::MAX + u32::MAX == samples.len() * u32::MAX)
            by (nonlinear_arith);
    }
}

/// Samples that fit a track still fit it with one more sample, if the
/// track counts time, the counts stay within their bits, and the new sample
/// finds room in its chunk.
proof fn lemma_fits_push(
    samples: Seq<SampleView>,
    sample: SampleView,
    track: TrackConfigView,
    movie_timescale: u32,
)
    requires
        fits(samples, track, movie_timescale),
    ensures
        fits(samples.push(sample), track, movie_timescale) <==> {
            &&& track.timescale >= 1
            &&& samples.len() + 2 <= u32::MAX
            &&& (ticks(samples) + sample.duration) * movie_timescale <= u64::MAX
            &&& sample.bytes.len() <= track.media_conf.sample_limit()
            &&& paced(samples.push(sample), samples.len() as int, track.timescale)
        },
        paced(samples.push(sample), samples.len() as int, track.timescale) <==> {
            ||| ticks(samples) + sample.duration <= u32::MAX
            ||| filled(samples) && sample.bytes.len() > 0 && track.timescale - 1
                + sample.duration <= u32::MAX
        },
        filled(samples.push(sample)) <==> filled(samples) && sample.bytes.len() > 0,
{
    let timescale = track.timescale;
    let limit = track.media_conf.sample_limit();
    let after = samples.push(sample);
    let n = samples.len() as int;
    lemma_ticks_push(samples, sample);
    assert(after.take(n) =~= samples);
    assert(after.take(n + 1) =~= after);
    assert(filled(after) <==> filled(samples) && sample.bytes.len() > 0) by {
        if filled(samples) && sample.bytes.len() > 0 {
            assert forall|i: int| 0 <= i < after.len() implies (#[trigger] after[i]).bytes.len()
                > 0 by {
                if i < n {
                    assert(after[i] == samples[i]);
                }
            }
        }
        if filled(after) {
            assert(after[n].bytes.len() > 0);
            assert forall|i: int| 0 <= i < samples.len() implies (
            #[trigger] samples[i]).bytes.len() > 0 by {
                assert(after[i] == samples[i]);
            }
        }
    }
    assert forall|i: int| 0 <= i < n implies (paced(after, i, timescale) <==> paced(
        samples,
        i,
        timescale,
    )) by {
        assert(after.take(i) =~= samples.take(i));
        assert(after.take(i + 1) =~= samples.take(i + 1));
        assert(after[i] == samples[i]);
    }
    let rest = {
        &&& timescale >= 1
        &&& samples.len() + 2 <= u32::MAX
        &&& (ticks(samples) + sample.duration) * movie_timescale <= u64::MAX
        &&& sample.bytes.len() <= limit
        &&& paced(after, n, timescale)
    };
    if rest {
        assert forall|i: int| 0 <= i < after.len() implies #[trigger] paced(after, i, timescale)
            && after[i].bytes.len() <= limit by {
            if i < n {
                assert(paced(samples, i, timescale) && samples[i].bytes.len() <= limit);
                assert(after[i] == samples[i]);
            }
        }
    }
    if fits(after, track, movie_timescale) {
        assert(paced(after, n, timescale) && after[n].bytes.len() <= limit);
    }
}

/// The first of the samples that fit a track fit it too.
pub proof fn lemma_fits_prefix(
    samples: Seq<SampleView>,
    n: int,
    track: TrackConfigView,
    movie_timescale: u32,
)
    requires
        0 <= n <= samples.len(),
        fits(samples, track, movie_timescale),
    ensures
        fits(samples.take(n), track, movie_timescale),
    decreases samples.len() - n,
{
    if n < samples.len() {
        lemma_fits_prefix(samples, n + 1, track, movie_timescale);
        let longer = samples.take(n + 1);
        let shorter = samples.take(n);
        assert(longer.drop_last() =~= shorter);
        assert(longer.len() == n + 1);
        assert(shorter.len() == n);
        if n >= 1 {
            assert(fits(longer, track, movie_timescale));
            assert(ticks(longer) == ticks(shorter) + longer.last().duration);
            assert(ticks(shorter) * movie_timescale <= ticks(longer) * movie_timescale)
                by (nonlinear_arith)
                requires
                    ticks(shorter) <= ticks(longer),
            ;
            assert forall|i: int| 0 <= i < shorter.len() implies #[trigger] paced(
                shorter,
                i,
                track.timescale,
            ) && shorter[i].bytes.len() <= track.media_conf.sample_limit() by {
                assert(0 <= i < longer.len());
                assert(paced(longer, i, track.timescale));
                assert(longer[i].bytes.len() <= track.media_conf.sample_limit());
                assert(longer.take(i) =~= shorter.take(i));
                assert(longer.take(i + 1) =~= shorter.take(i + 1));
                assert(longer[i] == shorter[i]);
            }
        }
    } else {
        assert(samples.take(n) =~= samples);
    }
}

/// Appending a sample to a track lengthens the samples of that track by it
/// and leaves those of every other track as they are.
pub proof fn lemma_samples_of_push(
    writes: Seq<(int, SampleView)>,
    track: int,
    sample: SampleView,
    k: int,
)
    ensures
        samples_of(writes.push((track, sample)), k) == if k == track {
            samples_of(writes, k).push(sample)
        } else {
            samples_of(writes, k)
        },
{
    assert(writes.push((track, sample)).drop_last() =~= writes);
}

/// One more sample adds its duration to the ticks.
pub proof fn lemma_ticks_push(samples: Seq<SampleView>, sample: SampleView)
    ensures
        ticks(samples.push(sample)) == ticks(samples) + sample.duration,
{
    assert(samples.push(sample).drop_last() =~= samples);
}

/// Appending samples to a track lengthens the samples of that track by
/// them, in order, and leaves those of every other track as they are.
pub proof fn lemma_samples_of_tagged(
    writes: Seq<(int, SampleView)>,
    track: int,
    samples: Seq<SampleView>,
    k: int,
)
    ensures
        samples_of(writes + tagged(samples, track), k) == if k == track {
            samples_of(writes, k) + samples
        } else {
            samples_of(writes, k)
        },
    decreases samples.len(),
{
    if samples.len() == 0 {
        assert(writes + tagged(samples, track) =~= writes);
        assert(samples_of(writes, k) + samples =~= samples_of(writes, k));
    } else {
        let front = samples.drop_last();
        lemma_samples_of_tagged(writes, track, front, k);
        lemma_samples_of_push(writes + tagged(front, track), track, samples.last(), k);
        assert((writes + tagged(front, track)).push((track, samples.last())) =~= writes + tagged(
            samples,
            track,
        ));
        assert((samples_of(writes, k) + front).push(samples.last()) =~= samples_of(writes, k)
            + samples);
    }
}

/// An output container under construction, in memory. It is built in
/// order: started with a header, then its tracks are declared, then samples
/// are appended, then it is finished. Only the bytes that `finish` returns
/// form a readable container.
pub struct Sink {
    writer: mp4::Mp4Writer<std::io::Cursor<Vec<u8>>>,
    timescale: u32,
    tracks: Vec<TrackState>,
    written: bool,
}

impl Sink {
    #[verifier::type_invariant]
    spec fn well_formed(&self) -> bool {
        &&& shadows(self.tracks@, sink_layout(self.writer))
        &&& self.timescale == sink_layout(self.writer).config.timescale
        &&& self.written <==> sink_layout(self.writer).writes.len() > 0
    }

    /// What the container holds so far.
    pub closed spec fn layout(&self) -> Layout {
        sink_layout(self.writer)
    }

    /// Starts a container with the given header. This succeeds.
    pub fn start(config: &ContainerConfig) -> (r: Result<Sink, RemuxError>)
        ensures
            r matches Ok(sink) && sink.layout() == Layout::start(config@),
    {
        match write_start(config) {
            Ok(writer) => Ok(
                Sink { writer, timescale: config.timescale, tracks: Vec::new(), written: false },
            ),
            Err(_) => Err(RemuxError::Create),
        }
    }

    /// Declares one more track. Tracks are numbered from 1 in the order of
    /// their declaration. The declaration is refused exactly where the
    /// container cannot accept it now.
    pub fn add_track(self, config: &TrackConfig) -> (r: Result<Sink, RemuxError>)
        ensures
            r is Ok <==> self.layout().accepts_track(config@),
            match r {
                Ok(sink) => sink.layout() == self.layout().with_track(config@),
                Err(e) => e == RemuxError::Create,
            },
    {
        proof {
            use_type_invariant(&self);
        }
        let mut writer = self.writer;
        let mut tracks = self.tracks;
        if self.written || tracks.len() >= 0xffff_ffff {
            return Err(RemuxError::Create);
        }
        let (acceptable, limit): (bool, u32) = match &config.media_conf {
            MediaConfig::Avc(avc) => (avc.seq_param_set.len() >= 4, 0xffff_ffff),
            MediaConfig::Aac(aac) => (aac.is_known(), 0xff_ffff),
        };
        if !acceptable {
            return Err(RemuxError::Create);
        }
        let ghost before = sink_layout(writer);
        match add_track(&mut writer, config) {
            Ok(()) => {
                tracks.push(
                    TrackState {
                        timescale: config.timescale,
                        limit,
                        ticks: 0,
                        samples: 0,
                        filled: true,
                    },
                );
                proof {
                    let after = sink_layout(writer);
                    assert(after.writes =~= Seq::empty());
                    assert forall|j: int| 0 <= j < tracks@.len() implies {
                        &&& (#[trigger] tracks@[j]).timescale == after.tracks[j].timescale
                        &&& tracks@[j].limit == after.tracks[j].media_conf.sample_limit()
                        &&& tracks@[j].ticks == ticks(after.track_samples(j))
                        &&& tracks@[j].samples == after.track_samples(j).len()
                        &&& tracks@[j].filled == filled(after.track_samples(j))
                        &&& fits(after.track_samples(j), after.tracks[j], after.config.timescale)
                    } by {
                        if j < before.tracks.len() {
                            assert(after.track_samples(j) == before.track_samples(j));
                        }
                    }
                }
                Ok(Sink { writer, timescale: self.timescale, tracks, written: false })
            },
            Err(_) => Err(RemuxError::Create),
        }
    }

    /// Appends a sample to the track numbered `track_id`, counting from 1.
    /// It is refused exactly where the container cannot accept it now.
    pub fn write_sample(self, track_id: u32, sample: Sample) -> (r: Result<Sink, RemuxError>)
        ensures
            r is Ok <==> self.layout().accepts_sample(track_id, sample@),
            match r {
                Ok(sink) => sink.layout() == self.layout().with_sample(track_id - 1, sample@),
                Err(e) => e == RemuxError::SampleIo,
            },
    {
        proof {
            use_type_invariant(&self);
        }
        let mut writer = self.writer;
        let mut tracks = self.tracks;
        if track_id == 0 || track_id as usize > tracks.len() {
            return Err(RemuxError::SampleIo);
        }
        let k: usize = (track_id - 1) as usize;
        let state = &tracks[k];
        let ghost before = sink_layout(writer);
        let ghost added = sample@;
        proof {
            lemma_ticks_bound(before.track_samples(k as int));
            lemma_fits_push(
                before.track_samples(k as int),
                added,
                before.tracks[k as int],
                self.timescale,
            );
            assert(state.samples * u32::MAX <= u32::MAX * u32::MAX) by (nonlinear_arith)
                requires
                    state.samples <= u32::MAX,
            ;
            assert(0xffff_ffff * 0xffff_ffff + 0xffff_ffff <= 0xffff_ffff_ffff_ffff)
                by (nonlinear_arith);
        }
        if state.timescale == 0 || state.samples > 0xffff_ffff - 2 || sample.bytes.len()
            > state.limit as usize {
            return Err(RemuxError::SampleIo);
        }
        let total: u64 = state.ticks + sample.duration as u64;
        proof {
            assert((total as u128) * (self.timescale as u128) <= 0xffff_ffff_ffff_ffff
                * 0xffff_ffff) by (nonlinear_arith)
                requires
                    total <= 0xffff_ffff_ffff_ffff,
                    self.timescale <= 0xffff_ffff,
            ;
        }
        let span: u128 = (total as u128) * (self.timescale as u128);
        if span > 0xffff_ffff_ffff_ffff {
            return Err(RemuxError::SampleIo);
        }
        let all_filled = state.filled && sample.bytes.len() > 0;
        let steady = all_filled && (state.timescale - 1) as u64 + sample.duration as u64
            <= 0xffff_ffff;
        if total > 0xffff_ffff && !steady {
            return Err(RemuxError::SampleIo);
        }
        let next = TrackState {
            timescale: state.timescale,
            limit: state.limit,
            ticks: total,
            samples: state.samples + 1,
            filled: all_filled,
        };
        match write_sample(&mut writer, track_id, sample) {
            Ok(()) => {
                tracks.set(k, next);
                proof {
                    let after = sink_layout(writer);
                    assert forall|j: int| 0 <= j < tracks@.len() implies {
                        &&& (#[trigger] tracks@[j]).timescale == after.tracks[j].timescale
                        &&& tracks@[j].limit == after.tracks[j].media_conf.sample_limit()
                        &&& tracks@[j].ticks == ticks(after.track_samples(j))
                        &&& tracks@[j].samples == after.track_samples(j).len()
                        &&& tracks@[j].filled == filled(after.track_samples(j))
                        &&& fits(after.track_samples(j), after.tracks[j], after.config.timescale)
                    } by {
                        lemma_samples_of_push(before.writes, k as int, added, j);
                        if j == k {
                            lemma_ticks_push(before.track_samples(j), added);
                            assert(after.track_samples(j) == before.track_samples(j).push(added));
                        } else {
                            assert(after.track_samples(j) == before.track_samples(j));
                        }
                    }
                }
                Ok(Sink { writer, timescale: self.timescale, tracks, written: true })
            },
            Err(_) => Err(RemuxError::SampleIo),
        }
    }

    /// Finishes the container and hands out its bytes. This succeeds.
    pub fn finish(self) -> (r: Result<Vec<u8>, RemuxError>)
        ensures
            r matches Ok(bytes) && bytes@ == container_bytes(self.layout()),
    {
        proof {
            use_type_invariant(&self);
            let layout = sink_layout(self.writer);
            assert forall|k: int| 0 <= k < layout.tracks.len() implies fits(
                #[trigger] layout.track_samples(k),
                layout.tracks[k],
                layout.config.timescale,
            ) by {
                assert(self.tracks@[k].timescale == layout.tracks[k].timescale);
            }
        }
        match write_end(self.writer) {
            Ok(bytes) => Ok(bytes),
            Err(_) => Err(RemuxError::Finalize),
        }
    }
}

} // verus!
