use vstd::prelude::*;

verus! {

/// The header of a container: its brands and the ticks per second of the
/// whole file.
#[derive(Debug, Clone, PartialEq, Eq)]
pub struct ContainerConfig {
    pub major_brand: [u8; 4],
    pub minor_version: u32,
    pub compatible_brands: Vec<[u8; 4]>,
    pub timescale: u32,
}

/// The mathematical value of a `ContainerConfig`.
pub struct ContainerConfigView {
    pub major_brand: [u8; 4],
    pub minor_version: u32,
    pub compatible_brands: Seq<[u8; 4]>,
    pub timescale: u32,
}

impl View for ContainerConfig {
    type V = ContainerConfigView;

    open spec fn view(&self) -> ContainerConfigView {
        ContainerConfigView {
            major_brand: self.major_brand,
            minor_version: self.minor_version,
            compatible_brands: self.compatible_brands@,
            timescale: self.timescale,
        }
    }
}

/// The kind of media a track carries.
#[derive(Debug, Clone, Copy, PartialEq, Eq, Structural)]
pub enum TrackType {
    Video,
    Audio,
}

impl TrackType {
    /// The four-byte code of the media handler of tracks of this kind:
    /// `vide` for video, `soun` for audio.
    pub open spec fn handler_code(self) -> Seq<u8> {
        match self {
            TrackType::Video => seq![0x76u8, 0x69u8, 0x64u8, 0x65u8],
            TrackType::Audio => seq![0x73u8, 0x6fu8, 0x75u8, 0x6eu8],
        }
    }

    /// Whether `handler` is the code of the media handler of tracks of
    /// this kind.
    pub fn handles(self, handler: &[u8; 4]) -> (r: bool)
        ensures
            r == (handler@ == self.handler_code()),
    {
        let r = match self {
            TrackType::Video => handler[0] == 0x76 && handler[1] == 0x69 && handler[2] == 0x64
                && handler[3] == 0x65,
            TrackType::Audio => handler[0] == 0x73 && handler[1] == 0x6f && handler[2] == 0x75
                && handler[3] == 0x6e,
        };
        proof {
            if r {
                assert(handler@ =~= self.handler_code());
            } else {
                let code = self.handler_code();
                assert(code[0] != handler@[0] || code[1] != handler@[1] || code[2] != handler@[2]
                    || code[3] != handler@[3]);
            }
        }
        r
    }
}

/// What a decoder needs to know of an H.264 track.
#[derive(Debug, Clone, PartialEq, Eq)]
pub struct AvcConfig {
    pub width: u16,
    pub height: u16,
    pub seq_param_set: Vec<u8>,
    pub pic_param_set: Vec<u8>,
}

/// What a decoder needs to know of an AAC track. The three codes are the
/// numbers that the elementary stream descriptor stores.
#[derive(Debug, Clone, Copy, PartialEq, Eq, Structural)]
pub struct AacConfig {
    pub bitrate: u32,
    pub profile: u8,
    pub freq_index: u8,
    pub chan_conf: u8,
}

/// Whether `code` is an audio object type that tracks can be declared
/// with.
pub open spec fn known_profile(code: u8) -> bool {
    1 <= code <= 9 || 12 <= code <= 17 || 19 <= code <= 30 || 32 <= code <= 46
}

/// Whether `code` is the index of a sampling frequency.
pub open spec fn known_freq_index(code: u8) -> bool {
    code <= 12
}

/// Whether `code` is a channel configuration.
pub open spec fn known_chan_conf(code: u8) -> bool {
    1 <= code <= 7
}

impl AacConfig {
    /// Whether the three codes are ones that tracks can be declared with.
    pub open spec fn known(self) -> bool {
        known_profile(self.profile) && known_freq_index(self.freq_index) && known_chan_conf(
            self.chan_conf,
        )
    }

    /// Tells whether the three codes are ones that tracks can be declared
    /// with.
    pub fn is_known(&self) -> (r: bool)
        ensures
            r == self.known(),
    {
        let p = self.profile;
        let profile = (1 <= p && p <= 9) || (12 <= p && p <= 17) || (19 <= p && p <= 30) || (32
            <= p && p <= 46);
        profile && self.freq_index <= 12 && 1 <= self.chan_conf && self.chan_conf <= 7
    }
}

/// The codec-specific part of a track configuration.
#[derive(Debug, Clone, PartialEq, Eq)]
pub enum MediaConfig {
    Avc(AvcConfig),
    Aac(AacConfig),
}

/// The mathematical value of a `MediaConfig`.
pub enum MediaConfigView {
    Avc { width: u16, height: u16, seq_param_set: Seq<u8>, pic_param_set: Seq<u8> },
    Aac { bitrate: u32, profile: u8, freq_index: u8, chan_conf: u8 },
}

impl MediaConfigView {
    /// Whether the codes of an AAC configuration are ones that tracks can be
    /// declared with.
    pub open spec fn known(self) -> bool {
        self matches MediaConfigView::Aac { profile, freq_index, chan_conf, .. }
            ==> known_profile(profile) && known_freq_index(freq_index) && known_chan_conf(
            chan_conf,
        )
    }

    /// The most bytes that a sample of a track with this configuration
    /// holds. The size of a sample is counted in 32 bits; the largest size
    /// in an AAC track is written down in 24 bits.
    pub open spec fn sample_limit(self) -> nat {
        match self {
            MediaConfigView::Avc { .. } => 0xffff_ffff,
            MediaConfigView::Aac { .. } => 0xff_ffff,
        }
    }
}

impl View for AvcConfig {
    type V = MediaConfigView;

    open spec fn view(&self) -> MediaConfigView {
        MediaConfigView::Avc {
            width: self.width,
            height: self.height,
            seq_param_set: self.seq_param_set@,
            pic_param_set: self.pic_param_set@,
        }
    }
}

impl View for AacConfig {
    type V = MediaConfigView;

    open spec fn view(&self) -> MediaConfigView {
        MediaConfigView::Aac {
            bitrate: self.bitrate,
            profile: self.profile,
            freq_index: self.freq_index,
            chan_conf: self.chan_conf,
        }
    }
}

impl View for MediaConfig {
    type V = MediaConfigView;

    open spec fn view(&self) -> MediaConfigView {
        match self {
            MediaConfig::Avc(avc) => avc@,
            MediaConfig::Aac(aac) => aac@,
        }
    }
}

/// The declaration of one track of an output container.
#[derive(Debug, Clone, PartialEq, Eq)]
pub struct TrackConfig {
    pub track_type: TrackType,
    pub timescale: u32,
    pub language: String,
    pub media_conf: MediaConfig,
}

/// The mathematical value of a `TrackConfig`.
pub struct TrackConfigView {
    pub track_type: TrackType,
    pub timescale: u32,
    pub language: Seq<char>,
    pub media_conf: MediaConfigView,
}

impl View for TrackConfig {
    type V = TrackConfigView;

    open spec fn view(&self) -> TrackConfigView {
        TrackConfigView {
            track_type: self.track_type,
            timescale: self.timescale,
            language: self.language@,
            media_conf: self.media_conf@,
        }
    }
}

/// One timed unit of encoded data of a track.
#[derive(Debug, Clone, PartialEq, Eq)]
pub struct Sample {
    pub start_time: u64,
    pub duration: u32,
    pub rendering_offset: i32,
    pub is_sync: bool,
    pub bytes: Vec<u8>,
}

/// The mathematical value of a `Sample`.
pub struct SampleView {
    pub start_time: u64,
    pub duration: u32,
    pub rendering_offset: i32,
    pub is_sync: bool,
    pub bytes: Seq<u8>,
}

impl View for Sample {
    type V = SampleView;

    open spec fn view(&self) -> SampleView {
        SampleView {
            start_time: self.start_time,
            duration: self.duration,
            rendering_offset: self.rendering_offset,
            is_sync: self.is_sync,
            bytes: self.bytes@,
        }
    }
}

/// What a source container says of one of its tracks. `handler` is the
/// four-byte code of the track's media handler. A field is `None` where
/// the track's sample description does not carry it.
#[derive(Debug, Clone, PartialEq, Eq)]
pub struct TrackSummary {
    pub handler: [u8; 4],
    pub width: u16,
    pub height: u16,
    pub timescale: u32,
    pub language: String,
    pub seq_param_set: Option<Vec<u8>>,
    pub pic_param_set: Option<Vec<u8>>,
    pub profile: Option<u8>,
    pub freq_index: Option<u8>,
    pub chan_conf: Option<u8>,
}

/// The mathematical value of a `TrackSummary`.
pub struct TrackSummaryView {
    pub handler: [u8; 4],
    pub width: u16,
    pub height: u16,
    pub timescale: u32,
    pub language: Seq<char>,
    pub seq_param_set: Option<Seq<u8>>,
    pub pic_param_set: Option<Seq<u8>>,
    pub profile: Option<u8>,
    pub freq_index: Option<u8>,
    pub chan_conf: Option<u8>,
}

/// The view of an optional byte string.
pub open spec fn bytes_view(bytes: Option<Vec<u8>>) -> Option<Seq<u8>> {
    match bytes {
        Some(b) => Some(b@),
        None => None,
    }
}

impl View for TrackSummary {
    type V = TrackSummaryView;

    open spec fn view(&self) -> TrackSummaryView {
        TrackSummaryView {
            handler: self.handler,
            width: self.width,
            height: self.height,
            timescale: self.timescale,
            language: self.language@,
            seq_param_set: bytes_view(self.seq_param_set),
            pic_param_set: bytes_view(self.pic_param_set),
            profile: self.profile,
            freq_index: self.freq_index,
            chan_conf: self.chan_conf,
        }
    }
}

} // verus!
