use vstd::prelude::*;

use crate::error::RemuxError;
use crate::media::{
    ContainerConfig, ContainerConfigView, Sample, SampleView, TrackSummary, TrackSummaryView,
};
use crate::nesting::{nests, well_nested};
use crate::tables::{
    fragment_samples, ChunkTables, ChunkTablesView, FragmentRuns, FragmentRunsView, SampleTables,
    SampleTablesView,
};

verus! {

/// `mp4::Mp4Reader`, the reader of containers. Nothing is known of its
/// inside; `source_bytes` names the bytes that it was opened on.
#[verifier::external_type_specification]
#[verifier::external_body]
#[verifier::reject_recursive_types(R)]
pub struct ExMp4Reader<R>(mp4::Mp4Reader<R>);

/// The bytes of the container that an `mp4::Mp4Reader` over a byte buffer
/// was opened on.
pub uninterp spec fn source_bytes(reader: mp4::Mp4Reader<std::io::Cursor<Vec<u8>>>) -> Seq<u8>;

/// Whether `mp4::Mp4Reader::read_header` accepts these bytes, read from
/// their start and over their whole length.
pub uninterp spec fn header_parses(bytes: Seq<u8>) -> bool;

/// The brands and the timescale that the parsed header of these bytes
/// gives.
pub uninterp spec fn parsed_config(bytes: Seq<u8>) -> ContainerConfigView;

/// What the parsed header of these bytes says of the track with this
/// identifier; `None` where it has no such track.
pub uninterp spec fn parsed_track(bytes: Seq<u8>, track_id: u32) -> Option<TrackSummaryView>;

/// The identifiers of the tracks of the parsed header of these bytes, in
/// the order in which the header lists the tracks.
pub uninterp spec fn parsed_order(bytes: Seq<u8>) -> Seq<u32>;

/// The bitrate that `mp4::Mp4Track::bitrate` gives for the track with this
/// identifier; `None` where the container has no such track.
pub uninterp spec fn parsed_bitrate(bytes: Seq<u8>, track_id: u32) -> Option<u32>;

/// The tables of the track with this identifier for samples in chunks;
/// `None` where the container has no such track.
pub uninterp spec fn parsed_chunk_tables(bytes: Seq<u8>, track_id: u32) -> Option<ChunkTablesView>;

/// What the movie fragments say of the track with this identifier; `None`
/// where the container has no such track.
pub uninterp spec fn parsed_fragment_runs(bytes: Seq<u8>, track_id: u32) -> Option<
    FragmentRunsView,
>;

/// The sample tables of the track with this identifier; `None` where the
/// container has no such track.
pub open spec fn parsed_tables(bytes: Seq<u8>, track_id: u32) -> Option<SampleTablesView> {
    match (parsed_chunk_tables(bytes, track_id), parsed_fragment_runs(bytes, track_id)) {
        (Some(chunks), Some(fragments)) => Some(SampleTablesView { chunks, fragments }),
        _ => None,
    }
}

/// The number of samples that `mp4::Mp4Reader::sample_count` gives for the
/// track with this identifier; `None` where it reports an error.
pub uninterp spec fn parsed_sample_count(bytes: Seq<u8>, track_id: u32) -> Option<u32>;

/// The sample that `mp4::Mp4Reader::read_sample` gives for this track and
/// this sample number, counted from 1; `None` where it reports an error or
/// finds no such sample.
pub uninterp spec fn parsed_sample(bytes: Seq<u8>, track_id: u32, sample_id: u32) -> Option<
    SampleView,
>;

/// Whether a container opens on these bytes: its boxes nest soundly and
/// its header parses.
pub open spec fn opens(bytes: Seq<u8>) -> bool {
    well_nested(bytes) && header_parses(bytes)
}

/// The view of an optional track summary.
pub open spec fn summary_view(summary: Option<TrackSummary>) -> Option<TrackSummaryView> {
    match summary {
        Some(s) => Some(s@),
        None => None,
    }
}

/// The view of optional sample tables.
pub open spec fn tables_view(tables: Option<SampleTables>) -> Option<SampleTablesView> {
    match tables {
        Some(t) => Some(t@),
        None => None,
    }
}

/// The view of an optional sample.
pub open spec fn sample_view(sample: Option<Sample>) -> Option<SampleView> {
    match sample {
        Some(s) => Some(s@),
        None => None,
    }
}

/// `mp4::Mp4Reader::read_header` on a buffer that holds `bytes`. It
/// succeeds exactly on the bytes whose header parses, and the reader then
/// stands for these bytes. The outside crate walks the boxes inside certain
/// boxes without looking at their sizes first: a box of size 0 would hold
/// it there for ever, and from the sizes of some boxes it subtracts what it
/// has read. Hence the demand that the boxes nest soundly.
#[verifier::external_body]
fn read_header(bytes: Vec<u8>) -> (r: Result<
    mp4::Mp4Reader<std::io::Cursor<Vec<u8>>>,
    mp4::Error,
>)
    requires
        well_nested(bytes@),
    ensures
        r is Ok <==> header_parses(bytes@),
        r matches Ok(reader) ==> source_bytes(reader) == bytes@,
{
    let size = bytes.len() as u64;
    mp4::Mp4Reader::read_header(std::io::Cursor::new(bytes), size)
}

/// `major_brand`, `minor_version`, `compatible_brands` and `timescale` of
/// `mp4::Mp4Reader`: the fields of the parsed header.
#[verifier::external_body]
fn header_config(reader: &mp4::Mp4Reader<std::io::Cursor<Vec<u8>>>) -> (r: ContainerConfig)
    ensures
        r@ == parsed_config(source_bytes(*reader)),
{
    ContainerConfig {
        major_brand: reader.major_brand().value,
        minor_version: reader.minor_version(),
        compatible_brands: reader.compatible_brands().iter().map(|b| b.value).collect(),
        timescale: reader.timescale(),
    }
}

/// The entry of `mp4::Mp4Reader::tracks` under `track_id`, read through the
/// getters of `mp4::Mp4Track`; the handler code is read from the handler
/// box. A getter that reports an error gives `None`.
#[verifier::external_body]
fn track_summary(reader: &mp4::Mp4Reader<std::io::Cursor<Vec<u8>>>, track_id: u32) -> (r: Option<
    TrackSummary,
>)
    ensures
        summary_view(r) == parsed_track(source_bytes(*reader), track_id),
{
    let track = reader.tracks().get(&track_id)?;
    Some(TrackSummary {
        handler: track.trak.mdia.hdlr.handler_type.value,
        width: track.width(),
        height: track.height(),
        timescale: track.timescale(),
        language: track.language().to_owned(),
        seq_param_set: track.sequence_parameter_set().ok().map(|s| s.to_vec()),
        pic_param_set: track.picture_parameter_set().ok().map(|s| s.to_vec()),
        profile: track.audio_profile().ok().map(|p| p as u8),
        freq_index: track.sample_freq_index().ok().map(|f| f as u8),
        chan_conf: track.channel_config().ok().map(|c| c as u8),
    })
}

/// The identifiers in the track headers of the movie box that
/// `mp4::Mp4Reader` parsed, in the order of the boxes. The reader keeps its
/// tracks under just these identifiers.
#[verifier::external_body]
fn track_order(reader: &mp4::Mp4Reader<std::io::Cursor<Vec<u8>>>) -> (r: Vec<u32>)
    ensures
        r@ == parsed_order(source_bytes(*reader)),
        forall|id: u32|
            r@.contains(id) <==> parsed_track(source_bytes(*reader), id) is Some,
{
    reader.moov.traks.iter().map(|t| t.tkhd.track_id).collect()
}

/// `mp4::Mp4Track::bitrate` of the track under `track_id`. For a track
/// without an AAC sample entry the outside crate divides by the track's
/// duration and timescale; a track with an audio profile has such an entry.
#[verifier::external_body]
fn track_bitrate(reader: &mp4::Mp4Reader<std::io::Cursor<Vec<u8>>>, track_id: u32) -> (r: Option<
    u32,
>)
    requires
        parsed_track(source_bytes(*reader), track_id) matches Some(t) && t.profile is Some,
    ensures
        r == parsed_bitrate(source_bytes(*reader), track_id),
{
    reader.tracks().get(&track_id).map(|t| t.bitrate())
}

/// The tables of the track under `track_id` for samples in chunks, copied
/// out of the sample table boxes that `mp4::Mp4Reader` parsed.
#[verifier::external_body]
fn chunk_tables(reader: &mp4::Mp4Reader<std::io::Cursor<Vec<u8>>>, track_id: u32) -> (r: Option<
    ChunkTables,
>)
    ensures
        match r {
            Some(tables) => parsed_chunk_tables(source_bytes(*reader), track_id) == Some(tables@),
            None => parsed_chunk_tables(source_bytes(*reader), track_id) is None,
        },
{
    let stbl = &reader.tracks().get(&track_id)?.trak.mdia.minf.stbl;
    Some(ChunkTables {
        chunk_runs: stbl.stsc.entries.iter().map(|e| (e.first_chunk, e.samples_per_chunk)).collect(),
        time_runs: stbl.stts.entries.iter().map(|e| (e.sample_count, e.sample_delta)).collect(),
        fixed_size: stbl.stsz.sample_size,
        sizes: stbl.stsz.sample_sizes.clone(),
        wide_offsets: stbl.co64.iter().flat_map(|b| b.entries.iter().copied()).collect(),
    })
}

/// What the track fragments of the track under `track_id` say of its
/// samples, copied out of the boxes that `mp4::Mp4Reader` parsed: the
/// number of samples and the sizes of each run, and the duration that the
/// reader gives to each sample.
#[verifier::external_body]
fn fragment_runs(reader: &mp4::Mp4Reader<std::io::Cursor<Vec<u8>>>, track_id: u32) -> (r: Option<
    FragmentRuns,
>)
    ensures
        match r {
            Some(runs) => parsed_fragment_runs(source_bytes(*reader), track_id) == Some(runs@),
            None => parsed_fragment_runs(source_bytes(*reader), track_id) is None,
        },
{
    let track = reader.tracks().get(&track_id)?;
    let runs = track.trafs.iter().flat_map(|f| f.trun.iter());
    Some(FragmentRuns {
        samples: track.trafs.iter().map(|f| f.trun.as_ref().map(|r| r.sample_count)).collect(),
        sizes: runs.flat_map(|r| r.sample_sizes.iter().copied()).collect(),
        sample_duration: track.default_sample_duration,
    })
}

/// `mp4::Mp4Reader::sample_count`. For a fragmented track the outside crate
/// sums the samples of the fragments in 32 bits, hence the bound.
#[verifier::external_body]
fn sample_count(reader: &mp4::Mp4Reader<std::io::Cursor<Vec<u8>>>, track_id: u32) -> (r: Option<
    u32,
>)
    requires
        parsed_fragment_runs(source_bytes(*reader), track_id) matches Some(runs)
            && fragment_samples(runs.samples) <= u32::MAX,
    ensures
        r == parsed_sample_count(source_bytes(*reader), track_id),
{
    reader.sample_count(track_id).ok()
}

/// `mp4::Mp4Reader::read_sample`. The outside crate looks the sample up by
/// unchecked arithmetic on the track's tables and makes room for it before
/// it reads it, hence the demand that the tables are sound, for a container
/// of as many bytes as the reader stands for, and cover the sample. The
/// reader stands for the same bytes afterwards.
#[verifier::external_body]
fn read_sample(
    reader: &mut mp4::Mp4Reader<std::io::Cursor<Vec<u8>>>,
    track_id: u32,
    sample_id: u32,
) -> (r: Option<Sample>)
    requires
        parsed_tables(source_bytes(*old(reader)), track_id) matches Some(t) && t.sound(
            source_bytes(*old(reader)).len(),
        ) && 1 <= sample_id <= t.covered(),
    ensures
        source_bytes(*final(reader)) == source_bytes(*old(reader)),
        sample_view(r) == parsed_sample(source_bytes(*old(reader)), track_id, sample_id),
{
    let sample = reader.read_sample(track_id, sample_id).ok().flatten()?;
    Some(Sample {
        start_time: sample.start_time,
        duration: sample.duration,
        rendering_offset: sample.rendering_offset,
        is_sync: sample.is_sync,
        bytes: sample.bytes.to_vec(),
    })
}

/// The sample of a track with this index, counted from 0, as the container
/// yields it.
pub open spec fn nth_sample(bytes: Seq<u8>, track_id: u32, index: int) -> Option<SampleView> {
    parsed_sample(bytes, track_id, (index + 1) as u32)
}

/// Whether the samples of a track can be read one by one: the track has
/// sound sample tables, and these cover as many samples as the track
/// counts.
pub open spec fn track_readable(bytes: Seq<u8>, track_id: u32) -> bool {
    match (parsed_tables(bytes, track_id), parsed_sample_count(bytes, track_id)) {
        (Some(t), Some(n)) => t.sound(bytes.len()) && n <= t.covered(),
        _ => false,
    }
}

/// A source container, opened on its bytes in memory.
pub struct Source {
    reader: mp4::Mp4Reader<std::io::Cursor<Vec<u8>>>,
    len: usize,
}

impl Source {
    #[verifier::type_invariant]
    spec fn well_formed(&self) -> bool {
        opens(source_bytes(self.reader)) && self.len == source_bytes(self.reader).len()
    }

    /// The bytes of the container.
    pub closed spec fn bytes(&self) -> Seq<u8> {
        source_bytes(self.reader)
    }

    /// Opens a container on its bytes. Fails exactly where its boxes do not
    /// nest soundly or its header does not parse.
    pub fn open(bytes: Vec<u8>) -> (r: Result<Source, RemuxError>)
        ensures
            match r {
                Ok(source) => opens(bytes@) && source.bytes() == bytes@,
                Err(e) => e == RemuxError::Open && !opens(bytes@),
            },
    {
        if !nests(bytes.as_slice()) {
            return Err(RemuxError::Open);
        }
        let len = bytes.len();
        match read_header(bytes) {
            Ok(reader) => Ok(Source { reader, len }),
            Err(_) => Err(RemuxError::Open),
        }
    }

    /// Does nothing when run. In a proof it recalls that an opened source
    /// opens on its bytes.
    pub(crate) fn recall_opened(&self)
        ensures
            opens(self.bytes()),
    {
        proof {
            use_type_invariant(self);
        }
    }

    /// The brands and the timescale of the container.
    pub fn config(&self) -> (r: ContainerConfig)
        ensures
            r@ == parsed_config(self.bytes()),
    {
        header_config(&self.reader)
    }

    /// The identifiers of the tracks, in the order in which the container
    /// lists them. These are the identifiers under which `track` finds a
    /// track.
    pub fn track_ids(&self) -> (r: Vec<u32>)
        ensures
            r@ == parsed_order(self.bytes()),
            forall|id: u32| r@.contains(id) <==> parsed_track(self.bytes(), id) is Some,
    {
        track_order(&self.reader)
    }

    /// What the container says of the track with this identifier.
    pub fn track(&self, track_id: u32) -> (r: Option<TrackSummary>)
        ensures
            summary_view(r) == parsed_track(self.bytes(), track_id),
    {
        track_summary(&self.reader, track_id)
    }

    /// The bitrate of the track with this identifier, if the track is there
    /// and carries an audio profile.
    pub fn bitrate(&self, track_id: u32) -> (r: Option<u32>)
        ensures
            r == match parsed_track(self.bytes(), track_id) {
                Some(t) => if t.profile is Some {
                    parsed_bitrate(self.bytes(), track_id)
                } else {
                    None
                },
                None => None,
            },
    {
        match track_summary(&self.reader, track_id) {
            Some(summary) => {
                if summary.profile.is_some() {
                    track_bitrate(&self.reader, track_id)
                } else {
                    None
                }
            },
            None => None,
        }
    }

    /// The number of bytes of the container.
    pub fn len(&self) -> (n: usize)
        ensures
            n == self.bytes().len(),
    {
        proof {
            use_type_invariant(self);
        }
        self.len
    }

    /// The sample tables of the track with this identifier.
    pub fn tables(&self, track_id: u32) -> (r: Option<SampleTables>)
        ensures
            tables_view(r) == parsed_tables(self.bytes(), track_id),
    {
        match (chunk_tables(&self.reader, track_id), fragment_runs(&self.reader, track_id)) {
            (Some(chunks), Some(fragments)) => Some(SampleTables { chunks, fragments }),
            _ => None,
        }
    }

    /// Turns to the samples of one track. Fails exactly where the track
    /// cannot be read sample by sample.
    pub fn into_track(self, track_id: u32) -> (r: Result<TrackReader, RemuxError>)
        ensures
            match r {
                Ok(track) => {
                    &&& track_readable(self.bytes(), track_id)
                    &&& track.bytes() == self.bytes()
                    &&& track.track_id() == track_id
                    &&& Some(track.count()) == parsed_sample_count(self.bytes(), track_id)
                },
                Err(e) => e == RemuxError::SampleIo && !track_readable(self.bytes(), track_id),
            },
    {
        proof {
            use_type_invariant(&self);
        }
        let tables = match self.tables(track_id) {
            Some(tables) => tables,
            None => { return Err(RemuxError::SampleIo); },
        };
        let covered = match tables.covered_samples(self.len) {
            Some(covered) => covered,
            None => { return Err(RemuxError::SampleIo); },
        };
        let count = match sample_count(&self.reader, track_id) {
            Some(count) => count,
            None => { return Err(RemuxError::SampleIo); },
        };
        if count > covered {
            return Err(RemuxError::SampleIo);
        }
        Ok(TrackReader { reader: self.reader, track_id, count })
    }
}

/// The samples of one track of a source container whose sample tables were
/// found sound.
pub struct TrackReader {
    reader: mp4::Mp4Reader<std::io::Cursor<Vec<u8>>>,
    track_id: u32,
    count: u32,
}

impl TrackReader {
    #[verifier::type_invariant]
    spec fn well_formed(&self) -> bool {
        &&& track_readable(source_bytes(self.reader), self.track_id)
        &&& Some(self.count) == parsed_sample_count(source_bytes(self.reader), self.track_id)
    }

    /// The bytes of the container.
    pub closed spec fn bytes(&self) -> Seq<u8> {
        source_bytes(self.reader)
    }

    /// The identifier of the track.
    pub closed spec fn track_id(&self) -> u32 {
        self.track_id
    }

    /// The number of samples of the track.
    pub closed spec fn count(&self) -> u32 {
        self.count
    }

    /// The number of samples of the track.
    pub fn len(&self) -> (n: u32)
        ensures
            n == self.count(),
            Some(n) == parsed_sample_count(self.bytes(), self.track_id()),
            track_readable(self.bytes(), self.track_id()),
    {
        proof {
            use_type_invariant(self);
        }
        self.count
    }

    /// Reads the sample with this index, counted from 0, and hands the
    /// reader back with it. Fails where the index is not below the number
    /// of samples, and where the container does not yield the sample.
    pub fn read(self, index: u32) -> (r: Result<(Sample, TrackReader), RemuxError>)
        ensures
            match r {
                Ok((sample, track)) => {
                    &&& index < self.count()
                    &&& nth_sample(self.bytes(), self.track_id(), index as int) == Some(sample@)
                    &&& track.bytes() == self.bytes()
                    &&& track.track_id() == self.track_id()
                    &&& track.count() == self.count()
                },
                Err(e) => e == RemuxError::SampleIo && (index >= self.count() || nth_sample(
                    self.bytes(),
                    self.track_id(),
                    index as int,
                ) is None),
            },
    {
        proof {
            use_type_invariant(&self);
        }
        if index >= self.count {
            return Err(RemuxError::SampleIo);
        }
        let mut reader = self.reader;
        match read_sample(&mut reader, self.track_id, index + 1) {
            Some(sample) => Ok(
                (sample, TrackReader { reader, track_id: self.track_id, count: self.count }),
            ),
            None => Err(RemuxError::SampleIo),
        }
    }
}

} // verus!
