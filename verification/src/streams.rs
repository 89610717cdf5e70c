//! Which streams of a file are played, and where its packets and times belong.
use vstd::prelude::*;

verus! {

/// What a stream of a file holds. A stream that cannot be read counts as `Other`.
#[derive(Debug, Clone, Copy, PartialEq, Eq, Structural)]
pub enum StreamKind {
    Video,
    Audio,
    Other,
}

/// The streams that are played, by their index.
#[derive(Debug, Clone, Copy, PartialEq, Eq, Structural)]
pub struct StreamSelection {
    pub video: Option<usize>,
    pub audio: Option<usize>,
}

/// Where a packet goes.
#[derive(Debug, Clone, Copy, PartialEq, Eq, Structural)]
pub enum PacketRoute {
    Video,
    Audio,
    Ignored,
}

/// The length of a tick of a stream's clock, in seconds, as a fraction.
#[derive(Debug, Clone, Copy, PartialEq, Eq, Structural)]
pub struct TimeBase {
    pub num: i32,
    pub den: i32,
}

/// `index` is where `kind` occurs first, or `None` where it does not occur.
pub open spec fn is_first(kinds: Seq<StreamKind>, kind: StreamKind, index: Option<usize>) -> bool {
    match index {
        Some(i) => {
            &&& i < kinds.len()
            &&& kinds[i as int] == kind
            &&& forall|j: int| 0 <= j < i ==> kinds[j] != kind
        },
        None => forall|j: int| 0 <= j < kinds.len() ==> kinds[j] != kind,
    }
}

/// Picks the first stream of a kind.
fn first_stream(kinds: &[StreamKind], kind: StreamKind) -> (index: Option<usize>)
    ensures
        is_first(kinds@, kind, index),
{
    let mut i: usize = 0;
    while i < kinds.len()
        invariant
            i <= kinds@.len(),
            forall|j: int| 0 <= j < i ==> kinds@[j] != kind,
        decreases kinds@.len() - i,
    {
        if kinds[i] == kind {
            return Some(i);
        }
        i = i + 1;
    }
    None
}

/// Picks the first video stream and the first audio stream of a file.
pub fn select_streams(kinds: &[StreamKind]) -> (selection: StreamSelection)
    ensures
        is_first(kinds@, StreamKind::Video, selection.video),
        is_first(kinds@, StreamKind::Audio, selection.audio),
{
    StreamSelection {
        video: first_stream(kinds, StreamKind::Video),
        audio: first_stream(kinds, StreamKind::Audio),
    }
}

/// A file has at most one first stream of each kind, so that every player picks
/// the same one.
pub proof fn first_stream_is_unique(
    kinds: Seq<StreamKind>,
    kind: StreamKind,
    a: Option<usize>,
    b: Option<usize>,
)
    requires
        is_first(kinds, kind, a),
        is_first(kinds, kind, b),
    ensures
        a == b,
{
    match (a, b) {
        (Some(i), Some(j)) => {
            assert(kinds[i as int] == kind && kinds[j as int] == kind);
        },
        (Some(i), None) => {
            assert(kinds[i as int] == kind);
        },
        (None, Some(j)) => {
            assert(kinds[j as int] == kind);
        },
        (None, None) => {},
    }
}

/// Where the packets of a stream go.
pub open spec fn route_of(
    stream_index: int,
    selection: StreamSelection,
    has_audio: bool,
) -> PacketRoute {
    if selection.video is Some && stream_index == selection.video->0 {
        PacketRoute::Video
    } else if selection.audio is Some && stream_index == selection.audio->0 && has_audio {
        PacketRoute::Audio
    } else {
        PacketRoute::Ignored
    }
}

/// Routes a packet by its stream. Audio packets are only decoded where audio is
/// being played.
pub fn route_packet(
    stream_index: i32,
    selection: StreamSelection,
    has_audio: bool,
) -> (route: PacketRoute)
    ensures
        route == (if selection.video is Some && stream_index == selection.video->0 {
            PacketRoute::Video
        } else if selection.audio is Some && stream_index == selection.audio->0 && has_audio {
            PacketRoute::Audio
        } else {
            PacketRoute::Ignored
        }),
        route == route_of(stream_index as int, selection, has_audio),
{
    if stream_index < 0 {
        return PacketRoute::Ignored;
    }
    let index: usize = stream_index as usize;
    match selection.video {
        Some(video) => {
            if index == video {
                return PacketRoute::Video;
            }
        },
        None => {},
    }
    match selection.audio {
        Some(audio) => {
            if index == audio && has_audio {
                return PacketRoute::Audio;
            }
        },
        None => {},
    }
    PacketRoute::Ignored
}

/// What a decoded frame tells, or else its stream.
pub open spec fn told_value(frame_value: i32, stream_value: i32) -> i32 {
    if frame_value > 0 {
        frame_value
    } else {
        stream_value
    }
}

/// A dimension or rate of a decoded frame; where the frame does not tell it, that
/// of its stream.
pub fn frame_or_stream(frame_value: i32, stream_value: i32) -> (value: i32)
    ensures
        value == (if frame_value > 0 {
            frame_value
        } else {
            stream_value
        }),
        value == told_value(frame_value, stream_value),
{
    if frame_value > 0 {
        frame_value
    } else {
        stream_value
    }
}

impl TimeBase {
    /// A tick has a length.
    pub open spec fn is_usable(self) -> bool {
        self.num > 0 && self.den > 0
    }

    /// Tells whether a tick has a length.
    pub fn usable(&self) -> (usable: bool)
        ensures
            usable == self.is_usable(),
    {
        self.num > 0 && self.den > 0
    }

    /// A number of ticks that is not below the least, where ticks have a length.
    pub open spec fn ticks_from(self, ticks: i64, least: i64) -> Option<i64> {
        if ticks >= least && self.is_usable() {
            Some(ticks)
        } else {
            None
        }
    }

    /// The length of a stream in ticks, where it is known.
    pub fn duration_ticks(&self, duration: i64) -> (ticks: Option<i64>)
        ensures
            ticks == (if duration > 0 && self.is_usable() {
                Some(duration)
            } else {
                None
            }),
            ticks == self.ticks_from(duration, 1),
    {
        if duration > 0 && self.usable() {
            Some(duration)
        } else {
            None
        }
    }

    /// The time of a frame in ticks, where it has one. A frame without a time
    /// has the least number there is.
    pub fn frame_ticks(&self, pts: i64) -> (ticks: Option<i64>)
        ensures
            ticks == (if pts >= 0 && self.is_usable() {
                Some(pts)
            } else {
                None
            }),
            ticks == self.ticks_from(pts, 0),
    {
        if pts >= 0 && self.usable() {
            Some(pts)
        } else {
            None
        }
    }
}

/// The stream that is picked is of its kind, and none of that kind comes before it; one
/// is picked wherever there is one.
pub proof fn first_stream_comes_before_all_others(
    kinds: Seq<StreamKind>,
    kind: StreamKind,
    picked: Option<usize>,
    i: int,
)
    requires
        is_first(kinds, kind, picked),
        kinds.len() <= usize::MAX,
        0 <= i < kinds.len(),
    ensures
        kinds[i] == kind ==> picked is Some && picked->0 <= i,
        picked matches Some(p) ==> p < kinds.len() && kinds[p as int] == kind,
{
    if kinds[i] == kind && picked is Some && picked->0 > i {
        assert(kinds[i] != kind);
    }
}

/// The packets of the first video stream go to the video, those of the first audio stream
/// to the sound where sound is played, and all others nowhere. Each stream goes to its own
/// kind.
pub proof fn packets_follow_their_stream(
    kinds: Seq<StreamKind>,
    selection: StreamSelection,
    has_audio: bool,
    stream_index: int,
)
    requires
        is_first(kinds, StreamKind::Video, selection.video),
        is_first(kinds, StreamKind::Audio, selection.audio),
        0 <= stream_index < kinds.len(),
    ensures
        ({
            let route = route_of(stream_index, selection, has_audio);
            let first = forall|j: int| 0 <= j < stream_index ==> kinds[j] != kinds[stream_index];
            &&& route == PacketRoute::Video <==> kinds[stream_index] == StreamKind::Video && first
            &&& route == PacketRoute::Audio <==> kinds[stream_index] == StreamKind::Audio && first
                && has_audio
        }),
{
    let kind = kinds[stream_index];
    let first = forall|j: int| 0 <= j < stream_index ==> kinds[j] != kind;
    match (selection.video, kind) {
        (Some(v), StreamKind::Video) => {
            if first {
                if v < stream_index {
                    assert(kinds[v as int] != kind);
                }
            }
        },
        _ => {},
    }
    match (selection.audio, kind) {
        (Some(a), StreamKind::Audio) => {
            if first {
                if a < stream_index {
                    assert(kinds[a as int] != kind);
                }
            }
        },
        _ => {},
    }
}

/// What a frame tells comes before what its stream tells.
pub proof fn frames_come_before_streams(frame_value: i32, stream_value: i32)
    ensures
        frame_value > 0 ==> told_value(frame_value, stream_value) == frame_value,
        frame_value <= 0 ==> told_value(frame_value, stream_value) == stream_value,
{
}

/// Times and lengths are kept as they are, unless they are missing or ticks have no
/// length: a time is missing below zero, a length from zero down.
pub proof fn ticks_are_kept(base: TimeBase, ticks: i64)
    ensures
        base.num > 0 && base.den > 0 && ticks >= 0 ==> base.ticks_from(ticks, 0) == Some(ticks),
        base.num > 0 && base.den > 0 && ticks >= 1 ==> base.ticks_from(ticks, 1) == Some(ticks),
        base.num <= 0 || base.den <= 0 || ticks < 0 ==> base.ticks_from(ticks, 0) is None,
        base.num <= 0 || base.den <= 0 || ticks <= 0 ==> base.ticks_from(ticks, 1) is None,
{
}

} // verus!
