//! Which viewer a file is given to.
use vstd::prelude::*;
use vstd::string::*;

verus! {

/// What the extension of a file tells of it.
#[derive(Debug, Clone, Copy, PartialEq, Eq, Structural)]
pub enum MediaKind {
    Video,
    Audio,
    Other,
}

/// What can show or play a file.
#[derive(Debug, Clone, Copy, PartialEq, Eq, Structural)]
pub enum Viewer {
    Image,
    Video,
    Audio,
}

/// The extensions of common video formats.
pub open spec fn video_extensions() -> Seq<Seq<char>> {
    seq![
        "mp4"@,
        "mkv"@,
        "avi"@,
        "mov"@,
        "webm"@,
        "flv"@,
        "wmv"@,
        "m4v"@,
        "mpg"@,
        "mpeg"@,
        "3gp"@,
    ]
}

/// The extensions of common audio formats.
pub open spec fn audio_extensions() -> Seq<Seq<char>> {
    seq![
        "mp3"@,
        "m4a"@,
        "aac"@,
        "wav"@,
        "flac"@,
        "ogg"@,
        "opus"@,
        "wma"@,
        "alac"@,
        "aiff"@,
        "aif"@,
    ]
}

/// What an extension in lower case tells of a file.
pub open spec fn kind_of_extension(extension: Seq<char>) -> MediaKind {
    if video_extensions().contains(extension) {
        MediaKind::Video
    } else if audio_extensions().contains(extension) {
        MediaKind::Audio
    } else {
        MediaKind::Other
    }
}

/// The lower case form of a letter of the Latin alphabet; other characters are
/// their own.
pub open spec fn ascii_lowercase(c: char) -> char {
    if 'A' <= c <= 'Z' {
        (c as int + 32) as char
    } else {
        c
    }
}

/// All characters are ASCII.
pub open spec fn all_ascii(text: Seq<char>) -> bool {
    forall|i: int| 0 <= i < text.len() ==> (text[i] as int) < 128
}

/// The lower case form of a text, as `str::to_lowercase` finds it.
pub uninterp spec fn lowercased(text: Seq<char>) -> Seq<char>;

/// Calls `str::to_lowercase`, which gives the lower case form of a text after
/// Unicode. Of ASCII text that is the text with its capital letters made small.
#[verifier::external_body]
fn to_lowercase(text: &str) -> (lower: String)
    ensures
        lower@ == lowercased(text@),
        all_ascii(text@) ==> lower@ == Seq::new(
            text@.len(),
            |i: int| ascii_lowercase(text@[i]),
        ),
{
    text.to_lowercase()
}

fn is_one_of(text: &String, words: &[&str]) -> (found: bool)
    ensures
        found <==> exists|i: int| 0 <= i < words@.len() && #[trigger] words@[i]@ == text@,
{
    let mut i: usize = 0;
    while i < words.len()
        invariant
            i <= words@.len(),
            forall|j: int| 0 <= j < i ==> #[trigger] words@[j]@ != text@,
        decreases words@.len() - i,
    {
        if *text == words[i].to_owned() {
            return true;
        }
        i = i + 1;
    }
    false
}

/// Tells what an extension in lower case says of a file.
pub fn classify_lowercase(extension: &String) -> (kind: MediaKind)
    ensures
        kind == kind_of_extension(extension@),
{
    let video: [&str; 11] = [
        "mp4",
        "mkv",
        "avi",
        "mov",
        "webm",
        "flv",
        "wmv",
        "m4v",
        "mpg",
        "mpeg",
        "3gp",
    ];
    let audio: [&str; 11] = [
        "mp3",
        "m4a",
        "aac",
        "wav",
        "flac",
        "ogg",
        "opus",
        "wma",
        "alac",
        "aiff",
        "aif",
    ];
    proof {
        assert forall|i: int| 0 <= i < 11 implies #[trigger] video@[i]@ == video_extensions()[i] by {
            assert(i == 0 || i == 1 || i == 2 || i == 3 || i == 4 || i == 5 || i == 6 || i == 7
                || i == 8 || i == 9 || i == 10);
        }
        assert forall|i: int| 0 <= i < 11 implies #[trigger] audio@[i]@ == audio_extensions()[i] by {
            assert(i == 0 || i == 1 || i == 2 || i == 3 || i == 4 || i == 5 || i == 6 || i == 7
                || i == 8 || i == 9 || i == 10);
        }
    }
    if is_one_of(extension, video.as_slice()) {
        MediaKind::Video
    } else if is_one_of(extension, audio.as_slice()) {
        MediaKind::Audio
    } else {
        MediaKind::Other
    }
}

/// Tells what the extension of a file says of it, whatever its case.
pub fn classify_extension(extension: &str) -> (kind: MediaKind)
    ensures
        kind == kind_of_extension(lowercased(extension@)),
        all_ascii(extension@) ==> kind == kind_of_extension(
            Seq::new(extension@.len(), |i: int| ascii_lowercase(extension@[i])),
        ),
{
    classify_lowercase(&to_lowercase(extension))
}

/// The viewers that a file is given to in turn, until one of them takes it.
pub open spec fn viewers_for(kind: MediaKind) -> Seq<Viewer> {
    match kind {
        MediaKind::Video => seq![Viewer::Video],
        MediaKind::Audio => seq![Viewer::Audio],
        MediaKind::Other => seq![Viewer::Image, Viewer::Video, Viewer::Audio],
    }
}

/// The viewer to which a file is given after a number of them refused it.
pub open spec fn offered_viewer(kind: MediaKind, refused: int) -> Option<Viewer> {
    if refused < viewers_for(kind).len() {
        Some(viewers_for(kind)[refused])
    } else {
        None
    }
}

/// The viewer to which a file is given after `refused` of them refused it;
/// `None` where no viewer is left.
pub fn viewer_after(kind: MediaKind, refused: usize) -> (viewer: Option<Viewer>)
    ensures
        viewer == (if refused < viewers_for(kind).len() {
            Some(viewers_for(kind)[refused as int])
        } else {
            None
        }),
        viewer == offered_viewer(kind, refused as int),
{
    match kind {
        MediaKind::Video => if refused == 0 {
            Some(Viewer::Video)
        } else {
            None
        },
        MediaKind::Audio => if refused == 0 {
            Some(Viewer::Audio)
        } else {
            None
        },
        MediaKind::Other => if refused == 0 {
            Some(Viewer::Image)
        } else if refused == 1 {
            Some(Viewer::Video)
        } else if refused == 2 {
            Some(Viewer::Audio)
        } else {
            None
        },
    }
}

/// What is said of a file that no viewer took; `reason` is that of the last one.
pub fn failure_line(file: &str, reason: &str) -> (line: String)
    ensures
        line@ == "Error processing "@ + file@ + ": "@ + reason@,
{
    let mut line: String = "Error processing ".to_owned();
    line.append(file);
    line.append(": ");
    line.append(reason);
    line
}

/// No extension is one of videos and one of sound at once.
pub proof fn extensions_are_told_apart(extension: Seq<char>)
    requires
        video_extensions().contains(extension),
    ensures
        !audio_extensions().contains(extension),
{
    reveal_strlit("mp4");
    reveal_strlit("mkv");
    reveal_strlit("avi");
    reveal_strlit("mov");
    reveal_strlit("webm");
    reveal_strlit("flv");
    reveal_strlit("wmv");
    reveal_strlit("m4v");
    reveal_strlit("mpg");
    reveal_strlit("mpeg");
    reveal_strlit("3gp");
    reveal_strlit("mp3");
    reveal_strlit("m4a");
    reveal_strlit("aac");
    reveal_strlit("wav");
    reveal_strlit("flac");
    reveal_strlit("ogg");
    reveal_strlit("opus");
    reveal_strlit("wma");
    reveal_strlit("alac");
    reveal_strlit("aiff");
    reveal_strlit("aif");
    if audio_extensions().contains(extension) {
        let i = choose|i: int| 0 <= i < 11 && video_extensions()[i] == extension;
        let j = choose|j: int| 0 <= j < 11 && audio_extensions()[j] == extension;
        assert(video_extensions()[i].len() == audio_extensions()[j].len());
        assert(video_extensions()[i][0] == audio_extensions()[j][0]);
        assert(video_extensions()[i][1] == audio_extensions()[j][1]);
        assert(video_extensions()[i][2] == audio_extensions()[j][2]);
        assert(false);
    }
}

/// A file of an unknown kind is offered to every viewer once, and no file is
/// given up before it was offered to one.
pub proof fn every_viewer_gets_its_turn(kind: MediaKind)
    ensures
        viewers_for(kind).len() >= 1,
        viewers_for(kind).no_duplicates(),
        kind is Other ==> forall|viewer: Viewer| viewers_for(kind).contains(viewer),
{
    let all = viewers_for(kind);
    if kind is Other {
        assert(all[0] == Viewer::Image);
        assert(all[1] == Viewer::Video);
        assert(all[2] == Viewer::Audio);
        assert forall|viewer: Viewer| all.contains(viewer) by {
            match viewer {
                Viewer::Image => assert(all[0] == viewer),
                Viewer::Video => assert(all[1] == viewer),
                Viewer::Audio => assert(all[2] == viewer),
            }
        }
    }
}

/// The files that are given to the video player and to the audio player at once, by
/// their extension in lower case.
pub proof fn known_extensions(extension: Seq<char>)
    ensures
        kind_of_extension(extension) == MediaKind::Video <==> {
            ||| extension == "mp4"@ || extension == "mkv"@ || extension == "avi"@
            ||| extension == "mov"@ || extension == "webm"@ || extension == "flv"@
            ||| extension == "wmv"@ || extension == "m4v"@ || extension == "mpg"@
            ||| extension == "mpeg"@ || extension == "3gp"@
        },
        kind_of_extension(extension) == MediaKind::Audio <==> {
            ||| extension == "mp3"@ || extension == "m4a"@ || extension == "aac"@
            ||| extension == "wav"@ || extension == "flac"@ || extension == "ogg"@
            ||| extension == "opus"@ || extension == "wma"@ || extension == "alac"@
            ||| extension == "aiff"@ || extension == "aif"@
        },
{
    let video = video_extensions();
    let audio = audio_extensions();
    assert(video[0] == "mp4"@);
    assert(video[1] == "mkv"@);
    assert(video[2] == "avi"@);
    assert(video[3] == "mov"@);
    assert(video[4] == "webm"@);
    assert(video[5] == "flv"@);
    assert(video[6] == "wmv"@);
    assert(video[7] == "m4v"@);
    assert(video[8] == "mpg"@);
    assert(video[9] == "mpeg"@);
    assert(video[10] == "3gp"@);
    assert(audio[0] == "mp3"@);
    assert(audio[1] == "m4a"@);
    assert(audio[2] == "aac"@);
    assert(audio[3] == "wav"@);
    assert(audio[4] == "flac"@);
    assert(audio[5] == "ogg"@);
    assert(audio[6] == "opus"@);
    assert(audio[7] == "wma"@);
    assert(audio[8] == "alac"@);
    assert(audio[9] == "aiff"@);
    assert(audio[10] == "aif"@);
    if video.contains(extension) {
        extensions_are_told_apart(extension);
        let i = choose|i: int| 0 <= i < 11 && video[i] == extension;
        assert(i == 0 || i == 1 || i == 2 || i == 3 || i == 4 || i == 5 || i == 6 || i == 7 || i
            == 8 || i == 9 || i == 10);
    }
    if audio.contains(extension) {
        let i = choose|i: int| 0 <= i < 11 && audio[i] == extension;
        assert(i == 0 || i == 1 || i == 2 || i == 3 || i == 4 || i == 5 || i == 6 || i == 7 || i
            == 8 || i == 9 || i == 10);
        if video.contains(extension) {
            extensions_are_told_apart(extension);
        }
    }
}

/// Two characters are the same letter, in capitals or not.
pub open spec fn same_letter(a: char, b: char) -> bool {
    ||| a == b
    ||| 'A' <= a <= 'Z' && b as int == a as int + 32
    ||| 'A' <= b <= 'Z' && a as int == b as int + 32
}

/// Extensions that differ only in their capitals are of the same kind.
pub proof fn capitals_do_not_matter(a: Seq<char>, b: Seq<char>)
    requires
        a.len() == b.len(),
        forall|i: int| 0 <= i < a.len() ==> same_letter(#[trigger] a[i], b[i]),
    ensures
        kind_of_extension(Seq::new(a.len(), |i: int| ascii_lowercase(a[i]))) == kind_of_extension(
            Seq::new(b.len(), |i: int| ascii_lowercase(b[i])),
        ),
{
    assert forall|i: int| 0 <= i < a.len() implies ascii_lowercase(#[trigger] a[i])
        == ascii_lowercase(b[i]) by {
        assert(same_letter(a[i], b[i]));
    }
    assert(Seq::new(a.len(), |i: int| ascii_lowercase(a[i])) =~= Seq::new(
        b.len(),
        |i: int| ascii_lowercase(b[i]),
    ));
}

/// A video goes to the video player alone, sound to the audio player alone. Any other
/// file is first taken for a picture, then for a video, and last for sound; after that no
/// viewer is left.
pub proof fn viewers_take_their_turn(kind: MediaKind, refused: int)
    requires
        0 <= refused,
    ensures
        ({
            let viewer = offered_viewer(kind, refused);
            &&& kind is Video ==> (refused == 0 <==> viewer == Some(Viewer::Video)) && (viewer
                is None <==> refused > 0)
            &&& kind is Audio ==> (refused == 0 <==> viewer == Some(Viewer::Audio)) && (viewer
                is None <==> refused > 0)
            &&& kind is Other ==> {
                &&& viewer == Some(Viewer::Image) <==> refused == 0
                &&& viewer == Some(Viewer::Video) <==> refused == 1
                &&& viewer == Some(Viewer::Audio) <==> refused == 2
                &&& viewer is None <==> refused > 2
            }
        }),
{
}

} // verus!
