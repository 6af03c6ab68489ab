use vstd::prelude::*;

use crate::error::RemuxError;
use crate::media::TrackType;

verus! {

/// The three paths of one remux: the two sources and the destination.
#[derive(Debug, Clone, PartialEq, Eq)]
pub struct Sources {
    pub video: String,
    pub audio: String,
    pub output: String,
}

/// What the sidecar file of a download says of it: the number of the
/// fragment and the title of its tab.
#[derive(Debug, Clone, PartialEq, Eq)]
pub struct VideoInfo {
    pub fragment: u8,
    pub tab_name: String,
}

/// The decimal digit for a number below ten.
pub open spec fn digit(d: nat) -> char {
    seq!['0', '1', '2', '3', '4', '5', '6', '7', '8', '9'][d as int]
}

/// The decimal text of a number, without leading zeros.
pub open spec fn decimal_text(n: nat) -> Seq<char>
    decreases n,
{
    if n < 10 {
        seq![digit(n)]
    } else {
        decimal_text(n / 10).push(digit(n % 10))
    }
}

/// The name of the output file for a fragment number and a title: `[P`,
/// the number in decimal, `]`, the title, `.mp4`.
pub open spec fn output_name_text(fragment: u8, tab_name: Seq<char>) -> Seq<char> {
    seq!['[', 'P'] + decimal_text(fragment as nat) + seq![']'] + tab_name + seq![
        '.',
        'm',
        'p',
        '4',
    ]
}

/// The decimal digit for a number below ten.
fn digit_char(d: u8) -> (c: char)
    requires
        d < 10,
    ensures
        c == digit(d as nat),
{
    match d {
        0 => '0',
        1 => '1',
        2 => '2',
        3 => '3',
        4 => '4',
        5 => '5',
        6 => '6',
        7 => '7',
        8 => '8',
        _ => '9',
    }
}

/// Appends the decimal text of `n`.
fn push_decimal(text: &mut String, n: u8)
    ensures
        final(text)@ == old(text)@ + decimal_text(n as nat),
{
    reveal_with_fuel(decimal_text, 3);
    if n >= 100 {
        text.push(digit_char(n / 100));
    }
    if n >= 10 {
        text.push(digit_char((n / 10) % 10));
    }
    text.push(digit_char(n % 10));
    assert(final(text)@ =~= old(text)@ + decimal_text(n as nat));
}

impl VideoInfo {
    /// The name of the file that the remuxed fragment is written to.
    pub fn output_name(&self) -> (name: String)
        ensures
            name@ == output_name_text(self.fragment, self.tab_name@),
    {
        let mut name = String::new();
        name.push('[');
        name.push('P');
        push_decimal(&mut name, self.fragment);
        name.push(']');
        name.push_str(self.tab_name.as_str());
        name.push('.');
        name.push('m');
        name.push('p');
        name.push('4');
        assert(name@ =~= output_name_text(self.fragment, self.tab_name@));
        name
    }
}

/// Whether `needle` occurs in `hay` as a run of neighbouring items.
pub open spec fn has_infix(hay: Seq<char>, needle: Seq<char>) -> bool {
    exists|at: int| occurs_at(hay, needle, at)
}

/// Whether `needle` occurs in `hay` from the position `at` on.
pub open spec fn occurs_at(hay: Seq<char>, needle: Seq<char>, at: int) -> bool {
    0 <= at && at + needle.len() <= hay.len() && hay.subrange(at, at + needle.len()) == needle
}

/// The extension of a fragment file.
pub open spec fn fragment_extension() -> Seq<char> {
    seq!['m', '4', 's']
}

/// The digits that the name of an audio fragment holds.
pub open spec fn audio_marker() -> Seq<char> {
    seq!['3', '0', '2', '8', '0']
}

/// The kind of fragment that a file with this extension and this stem is:
/// none without the fragment extension, audio where the stem holds the
/// audio marker, video otherwise.
pub open spec fn fragment_kind(extension: Option<Seq<char>>, stem: Seq<char>) -> Option<TrackType> {
    if extension != Some(fragment_extension()) {
        None
    } else if has_infix(stem, audio_marker()) {
        Some(TrackType::Audio)
    } else {
        Some(TrackType::Video)
    }
}

/// The characters of a text, one by one.
fn chars_of(text: &str) -> (chars: Vec<char>)
    ensures
        chars@ == text@,
{
    let n = text.unicode_len();
    let mut chars: Vec<char> = Vec::new();
    let mut i: usize = 0;
    while i < n
        invariant
            n == text@.len(),
            0 <= i <= n,
            chars@ == text@.take(i as int),
        decreases n - i,
    {
        chars.push(text.get_char(i));
        assert(text@.take(i + 1) =~= text@.take(i as int).push(text@[i as int]));
        i = i + 1;
    }
    assert(text@.take(n as int) =~= text@);
    chars
}

/// Tells whether `needle` occurs in `hay` from the position `at` on.
fn matches_at(hay: &Vec<char>, needle: &Vec<char>, at: usize) -> (r: bool)
    requires
        at + needle@.len() <= hay@.len(),
    ensures
        r == occurs_at(hay@, needle@, at as int),
{
    let end: usize = hay.len();
    let mut k: usize = 0;
    while k < needle.len()
        invariant
            end == hay@.len(),
            at + needle@.len() <= hay@.len(),
            0 <= k <= needle@.len(),
            forall|j: int| 0 <= j < k ==> hay@[at + j] == needle@[j],
        decreases needle@.len() - k,
    {
        if hay[at + k] != needle[k] {
            assert(hay@.subrange(at as int, at + needle@.len())[k as int] != needle@[k as int]);
            return false;
        }
        k = k + 1;
    }
    assert(hay@.subrange(at as int, at + needle@.len()) =~= needle@);
    true
}

/// Tells whether `needle` occurs in `hay`.
fn holds(hay: &Vec<char>, needle: &Vec<char>) -> (r: bool)
    ensures
        r == has_infix(hay@, needle@),
{
    if needle.len() > hay.len() {
        return false;
    }
    let last: usize = hay.len() - needle.len();
    let mut at: usize = 0;
    while at < last
        invariant
            last == hay@.len() - needle@.len(),
            0 <= at <= last,
            forall|j: int| 0 <= j < at ==> !occurs_at(hay@, needle@, j),
        decreases last - at,
    {
        if matches_at(hay, needle, at) {
            return true;
        }
        at = at + 1;
    }
    matches_at(hay, needle, last)
}

/// Tells which kind of fragment a file is, from its extension and its
/// stem.
pub fn classify_fragment(extension: Option<&str>, stem: &str) -> (kind: Option<TrackType>)
    ensures
        kind == fragment_kind(
            match extension {
                Some(e) => Some(e@),
                None => None,
            },
            stem@,
        ),
{
    let extension = match extension {
        Some(e) => chars_of(e),
        None => { return None; },
    };
    if extension.len() != 3 || extension[0] != 'm' || extension[1] != '4' || extension[2] != 's' {
        assert(extension@ != fragment_extension()) by {
            if extension@ == fragment_extension() {
                assert(extension@.len() == 3);
                assert(extension@[0] == 'm' && extension@[1] == '4' && extension@[2] == 's');
            }
        }
        return None;
    }
    assert(extension@ =~= fragment_extension());
    let marker: Vec<char> = vec!['3', '0', '2', '8', '0'];
    assert(marker@ =~= audio_marker());
    if holds(&chars_of(stem), &marker) {
        Some(TrackType::Audio)
    } else {
        Some(TrackType::Video)
    }
}

/// Whether `pick` is the position of the last file of the given kind among
/// `kinds`, or nothing where no file is of this kind.
pub open spec fn is_last_of(
    kinds: Seq<Option<TrackType>>,
    kind: TrackType,
    pick: Option<usize>,
) -> bool {
    match pick {
        Some(at) => {
            &&& at < kinds.len()
            &&& kinds[at as int] == Some(kind)
            &&& forall|j: int| at < j < kinds.len() ==> kinds[j] != Some(kind)
        },
        None => forall|j: int| 0 <= j < kinds.len() ==> kinds[j] != Some(kind),
    }
}

/// Picks the video fragment and the audio fragment among the files of a
/// directory, given the kind of each file in the order in which the
/// directory lists them. Where several files are of one kind, the last one
/// is taken.
pub fn pick_fragments(kinds: &Vec<Option<TrackType>>) -> (picks: (Option<usize>, Option<usize>))
    ensures
        is_last_of(kinds@, TrackType::Video, picks.0),
        is_last_of(kinds@, TrackType::Audio, picks.1),
{
    let mut video: Option<usize> = None;
    let mut audio: Option<usize> = None;
    let mut i: usize = 0;
    while i < kinds.len()
        invariant
            0 <= i <= kinds@.len(),
            is_last_of(kinds@.take(i as int), TrackType::Video, video),
            is_last_of(kinds@.take(i as int), TrackType::Audio, audio),
        decreases kinds@.len() - i,
    {
        match kinds[i] {
            Some(TrackType::Video) => {
                video = Some(i);
            },
            Some(TrackType::Audio) => {
                audio = Some(i);
            },
            None => {},
        }
        i = i + 1;
    }
    assert(kinds@.take(i as int) =~= kinds@);
    (video, audio)
}

/// Whether `at` is where the payload of a downloaded fragment starts: all
/// bytes before it are the character `0`, and the byte at it, if there is
/// one, is another.
pub open spec fn is_payload_start(bytes: Seq<u8>, at: int) -> bool {
    &&& 0 <= at <= bytes.len()
    &&& forall|j: int| 0 <= j < at ==> bytes[j] == 0x30
    &&& at < bytes.len() ==> bytes[at] != 0x30
}

/// Finds where the payload of a downloaded fragment starts, after the run
/// of characters `0` that the download put before it. A file of nothing but
/// such characters has no payload: it starts at the end.
pub fn payload_offset(bytes: &[u8]) -> (at: usize)
    ensures
        is_payload_start(bytes@, at as int),
{
    let mut at: usize = 0;
    while at < bytes.len() && bytes[at] == 0x30
        invariant
            0 <= at <= bytes@.len(),
            forall|j: int| 0 <= j < at ==> bytes@[j] == 0x30,
        decreases bytes@.len() - at,
    {
        at = at + 1;
    }
    at
}

/// The arguments that an external muxer takes for these paths: each source
/// after the word `-add`, then the destination.
pub open spec fn muxer_args_text(sources: Sources) -> Seq<Seq<char>> {
    seq![
        seq!['-', 'a', 'd', 'd'],
        sources.video@,
        seq!['-', 'a', 'd', 'd'],
        sources.audio@,
        sources.output@,
    ]
}

/// The word that stands before each source among the muxer's arguments.
fn add_word() -> (word: String)
    ensures
        word@ == seq!['-', 'a', 'd', 'd'],
{
    let mut word = String::new();
    word.push('-');
    word.push('a');
    word.push('d');
    word.push('d');
    assert(word@ =~= seq!['-', 'a', 'd', 'd']);
    word
}

impl Sources {
    /// The arguments to start an external muxer with.
    pub fn muxer_args(&self) -> (args: Vec<String>)
        ensures
            args@.len() == 5,
            forall|i: int| 0 <= i < 5 ==> (#[trigger] args@[i])@ == muxer_args_text(*self)[i],
    {
        let mut args: Vec<String> = Vec::new();
        args.push(add_word());
        args.push(self.video.clone());
        args.push(add_word());
        args.push(self.audio.clone());
        args.push(self.output.clone());
        args
    }
}

/// What an external muxer's exit means: success, or a failure without
/// further detail.
pub fn external_outcome(success: bool) -> (r: Result<(), RemuxError>)
    ensures
        r == if success {
            Ok::<(), RemuxError>(())
        } else {
            Err::<(), RemuxError>(RemuxError::ExternalTool)
        },
{
    if success {
        Ok(())
    } else {
        Err(RemuxError::ExternalTool)
    }
}

} // verus!
