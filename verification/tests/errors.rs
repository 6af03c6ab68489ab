use bili_remux::error::RemuxError;

#[test]
fn describe_names_the_stage() {
    assert_eq!(RemuxError::Open.describe(), "cannot open a source container");
    assert_eq!(RemuxError::Create.describe(), "cannot create the output container");
    assert_eq!(RemuxError::MissingTrack.describe(), "a source lacks the expected track");
    assert_eq!(
        RemuxError::MissingParameterSet.describe(),
        "the video track carries no AVC parameter sets"
    );
    assert_eq!(
        RemuxError::MissingAudioConfig.describe(),
        "the audio track carries no AAC configuration"
    );
    assert_eq!(RemuxError::SampleIo.describe(), "a sample could not be copied");
    assert_eq!(RemuxError::Finalize.describe(), "cannot finalize the output container");
    assert_eq!(RemuxError::ExternalTool.describe(), "the external muxer failed");
}

#[test]
fn descriptions_tell_the_stages_apart() {
    let all = [
        RemuxError::Open,
        RemuxError::Create,
        RemuxError::MissingTrack,
        RemuxError::MissingParameterSet,
        RemuxError::MissingAudioConfig,
        RemuxError::SampleIo,
        RemuxError::Finalize,
        RemuxError::ExternalTool,
    ];
    for (i, a) in all.iter().enumerate() {
        for (j, b) in all.iter().enumerate() {
            assert_eq!(a.describe() == b.describe(), i == j);
        }
    }
}
