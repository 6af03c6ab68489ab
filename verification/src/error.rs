use vstd::prelude::*;

verus! {

/// Why a remux stopped. Every failure aborts the whole operation; the variant
/// tells the stage that failed.
#[derive(Debug, Clone, Copy, PartialEq, Eq, Structural)]
pub enum RemuxError {
    /// A source could not be opened: it is missing or unreadable, its boxes
    /// do not nest soundly, or its header does not parse.
    Open,
    /// The destination could not be created, or refused the container header
    /// or a track declaration.
    Create,
    /// A source has no track under the identifier it is expected to use.
    MissingTrack,
    /// The video track carries no sequence or no picture parameter set.
    MissingParameterSet,
    /// The audio track carries no usable AAC profile, sampling-frequency
    /// index or channel configuration.
    MissingAudioConfig,
    /// A sample could not be read from its source or appended to the
    /// destination.
    SampleIo,
    /// The trailing structures of the destination could not be written.
    Finalize,
    /// An external muxing tool reported failure, with no further detail.
    ExternalTool,
}

impl RemuxError {
    /// The text that `describe` returns for each variant.
    pub open spec fn description(self) -> Seq<char> {
        match self {
            RemuxError::Open => "cannot open a source container"@,
            RemuxError::Create => "cannot create the output container"@,
            RemuxError::MissingTrack => "a source lacks the expected track"@,
            RemuxError::MissingParameterSet => "the video track carries no AVC parameter sets"@,
            RemuxError::MissingAudioConfig => "the audio track carries no AAC configuration"@,
            RemuxError::SampleIo => "a sample could not be copied"@,
            RemuxError::Finalize => "cannot finalize the output container"@,
            RemuxError::ExternalTool => "the external muxer failed"@,
        }
    }

    /// A sentence naming the stage that failed.
    pub fn describe(&self) -> (text: String)
        ensures
            text@ == self.description(),
    {
        match self {
            RemuxError::Open => "cannot open a source container".to_owned(),
            RemuxError::Create => "cannot create the output container".to_owned(),
            RemuxError::MissingTrack => "a source lacks the expected track".to_owned(),
            RemuxError::MissingParameterSet => "the video track carries no AVC parameter sets".to_owned(),
            RemuxError::MissingAudioConfig => "the audio track carries no AAC configuration".to_owned(),
            RemuxError::SampleIo => "a sample could not be copied".to_owned(),
            RemuxError::Finalize => "cannot finalize the output container".to_owned(),
            RemuxError::ExternalTool => "the external muxer failed".to_owned(),
        }
    }
}

} // verus!
