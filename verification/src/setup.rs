//! How a file is opened for playing: what is done in turn, what is said where it
//! fails, and what then has to be given back.
use vstd::prelude::*;
use vstd::string::*;

verus! {

/// Which player opens a file.
#[derive(Debug, Clone, Copy, PartialEq, Eq, Structural)]
pub enum Player {
    Video,
    Audio,
}

/// The steps of opening a file, in the order in which they are taken. The video
/// player ends with `OpenCodec`; the steps after it belong to sound.
#[derive(Debug, Clone, Copy, PartialEq, Eq, Structural)]
pub enum SetupStep {
    OpenInput,
    ReadStreamInfo,
    FindStream,
    FindDecoder,
    AllocateContext,
    CopyParameters,
    OpenCodec,
    FindDevice,
    QueryDevice,
    BuildStream,
    StartStream,
    CheckSampleRate,
    AllocatePacket,
    AllocateFrame,
}

/// What is held while a file is played.
#[derive(Debug, Clone, Copy, PartialEq, Eq, Structural)]
pub enum Resource {
    Input,
    CodecContext,
    AudioContext,
    Resampler,
    Scaler,
    Packet,
    Frame,
    AudioFrame,
}

/// What a player does after a step failed.
#[derive(Debug, Clone)]
pub struct SetupFailure {
    pub message: String,
    pub release: Vec<Resource>,
}

/// What the video player holds at the end besides its input, its codec, a
/// packet and a frame.
#[derive(Debug, Clone, Copy, PartialEq, Eq, Structural)]
pub struct HeldResources {
    pub audio_frame: bool,
    pub scaler: bool,
    pub resampler: bool,
    pub audio_context: bool,
}

impl SetupStep {
    /// The place of a step in the order of all steps.
    pub open spec fn rank(self) -> int {
        match self {
            SetupStep::OpenInput => 0,
            SetupStep::ReadStreamInfo => 1,
            SetupStep::FindStream => 2,
            SetupStep::FindDecoder => 3,
            SetupStep::AllocateContext => 4,
            SetupStep::CopyParameters => 5,
            SetupStep::OpenCodec => 6,
            SetupStep::FindDevice => 7,
            SetupStep::QueryDevice => 8,
            SetupStep::BuildStream => 9,
            SetupStep::StartStream => 10,
            SetupStep::CheckSampleRate => 11,
            SetupStep::AllocatePacket => 12,
            SetupStep::AllocateFrame => 13,
        }
    }

    /// What is held once the step succeeded. From the known sample rate on, a
    /// place for the resampler is held, which may still be empty.
    pub open spec fn acquires(self) -> Option<Resource> {
        match self {
            SetupStep::OpenInput => Some(Resource::Input),
            SetupStep::AllocateContext => Some(Resource::CodecContext),
            SetupStep::CheckSampleRate => Some(Resource::Resampler),
            SetupStep::AllocatePacket => Some(Resource::Packet),
            _ => None,
        }
    }

    /// What is given back where the step fails, the latest first.
    pub open spec fn releases(self) -> Seq<Resource> {
        let rank = self.rank();
        (if rank > SetupStep::AllocatePacket.rank() {
            seq![Resource::Packet]
        } else {
            seq![]
        }) + (if rank > SetupStep::CheckSampleRate.rank() {
            seq![Resource::Resampler]
        } else {
            seq![]
        }) + (if rank > SetupStep::AllocateContext.rank() {
            seq![Resource::CodecContext]
        } else {
            seq![]
        }) + (if rank > SetupStep::OpenInput.rank() {
            seq![Resource::Input]
        } else {
            seq![]
        })
    }
}

impl Player {
    /// The last step of opening a file. The sound of a video is opened after it,
    /// and may fail.
    pub open spec fn last_step(self) -> SetupStep {
        match self {
            Player::Video => SetupStep::OpenCodec,
            Player::Audio => SetupStep::AllocateFrame,
        }
    }
}

/// The step behind a step, in the order of all steps.
fn step_behind(step: SetupStep) -> (next: Option<SetupStep>)
    ensures
        next matches Some(next) ==> next.rank() == step.rank() + 1,
        next is None <==> step is AllocateFrame,
{
    match step {
        SetupStep::OpenInput => Some(SetupStep::ReadStreamInfo),
        SetupStep::ReadStreamInfo => Some(SetupStep::FindStream),
        SetupStep::FindStream => Some(SetupStep::FindDecoder),
        SetupStep::FindDecoder => Some(SetupStep::AllocateContext),
        SetupStep::AllocateContext => Some(SetupStep::CopyParameters),
        SetupStep::CopyParameters => Some(SetupStep::OpenCodec),
        SetupStep::OpenCodec => Some(SetupStep::FindDevice),
        SetupStep::FindDevice => Some(SetupStep::QueryDevice),
        SetupStep::QueryDevice => Some(SetupStep::BuildStream),
        SetupStep::BuildStream => Some(SetupStep::StartStream),
        SetupStep::StartStream => Some(SetupStep::CheckSampleRate),
        SetupStep::CheckSampleRate => Some(SetupStep::AllocatePacket),
        SetupStep::AllocatePacket => Some(SetupStep::AllocateFrame),
        SetupStep::AllocateFrame => None,
    }
}

/// `next` is what a player does once `step` succeeded: the step behind it, or
/// nothing more where it was the last.
pub open spec fn follows(player: Player, step: SetupStep, next: Option<SetupStep>) -> bool {
    match next {
        Some(next) => step.rank() < player.last_step().rank() && next.rank() == step.rank() + 1,
        None => step == player.last_step(),
    }
}

/// The step that a player takes once another one succeeded; `None` where the file
/// is open.
pub fn next_step(player: Player, step: SetupStep) -> (next: Option<SetupStep>)
    requires
        step.rank() <= player.last_step().rank(),
    ensures
        follows(player, step, next),
        next matches Some(next) ==> next.rank() == step.rank() + 1,
        next is None <==> step == player.last_step(),
{
    match (player, step) {
        (Player::Video, SetupStep::OpenCodec) => None,
        _ => step_behind(step),
    }
}

/// The step that opens the sound of a video once another one succeeded; `None`
/// where it is open. The first one finds the decoder.
pub fn next_sound_step(step: SetupStep) -> (next: Option<SetupStep>)
    requires
        SetupStep::FindDecoder.rank() <= step.rank() <= SetupStep::StartStream.rank(),
    ensures
        next matches Some(next) ==> next.rank() == step.rank() + 1 && next.rank()
            <= SetupStep::StartStream.rank(),
        next is None <==> step is StartStream,
{
    match step {
        SetupStep::StartStream => None,
        _ => step_behind(step),
    }
}

/// A player took `steps` one after the other from the first on, and each of them
/// succeeded.
pub open spec fn steps_succeeded(player: Player, steps: Seq<SetupStep>) -> bool {
    &&& steps.len() > 0
    &&& steps[0] is OpenInput
    &&& forall|i: int|
        0 <= i < steps.len() - 1 ==> follows(player, #[trigger] steps[i], Some(steps[i + 1]))
}

/// What is said where a step fails. `path` is the file, and `reason` what the
/// sound system tells.
pub open spec fn failure_message(
    player: Player,
    step: SetupStep,
    path: Seq<char>,
    reason: Seq<char>,
) -> Seq<char> {
    match (player, step) {
        (Player::Video, SetupStep::OpenInput) => "Could not open video file: "@ + path,
        (Player::Audio, SetupStep::OpenInput) => "Could not open audio file: "@ + path,
        (_, SetupStep::ReadStreamInfo) => "Could not find stream information"@,
        (Player::Video, SetupStep::FindStream) => "Could not find a video stream"@,
        (Player::Audio, SetupStep::FindStream) => "Could not find an audio stream"@,
        (Player::Video, SetupStep::FindDecoder) => "Video decoder not found"@,
        (Player::Audio, SetupStep::FindDecoder) => "Audio decoder not found"@,
        (Player::Video, SetupStep::AllocateContext) => "Could not allocate video codec context"@,
        (Player::Audio, SetupStep::AllocateContext) => "Could not allocate audio codec context"@,
        (Player::Video, SetupStep::CopyParameters) =>
            "Could not copy video codec parameters to context"@,
        (Player::Audio, SetupStep::CopyParameters) =>
            "Could not copy audio codec parameters to context"@,
        (Player::Video, SetupStep::OpenCodec) => "Could not open video codec"@,
        (Player::Audio, SetupStep::OpenCodec) => "Could not open audio codec"@,
        (_, SetupStep::FindDevice) => "No default audio output device"@,
        (_, SetupStep::QueryDevice) => "Could not get default audio output config: "@ + reason,
        (_, SetupStep::BuildStream) => "Could not build audio output stream: "@ + reason,
        (_, SetupStep::StartStream) => "Could not start audio output stream: "@ + reason,
        (_, SetupStep::CheckSampleRate) => "Audio stream has no sample rate"@,
        (_, SetupStep::AllocatePacket) => "Could not allocate audio packet"@,
        (_, SetupStep::AllocateFrame) => "Could not allocate audio frame"@,
    }
}

fn with_detail(text: &str, detail: &str) -> (message: String)
    ensures
        message@ == text@ + detail@,
{
    let mut message: String = text.to_owned();
    message.append(detail);
    message
}

fn message_for(player: Player, step: SetupStep, path: &str, reason: &str) -> (message: String)
    ensures
        message@ == failure_message(player, step, path@, reason@),
{
    match (player, step) {
        (Player::Video, SetupStep::OpenInput) => with_detail("Could not open video file: ", path),
        (Player::Audio, SetupStep::OpenInput) => with_detail("Could not open audio file: ", path),
        (_, SetupStep::ReadStreamInfo) => "Could not find stream information".to_owned(),
        (Player::Video, SetupStep::FindStream) => "Could not find a video stream".to_owned(),
        (Player::Audio, SetupStep::FindStream) => "Could not find an audio stream".to_owned(),
        (Player::Video, SetupStep::FindDecoder) => "Video decoder not found".to_owned(),
        (Player::Audio, SetupStep::FindDecoder) => "Audio decoder not found".to_owned(),
        (Player::Video, SetupStep::AllocateContext) => {
            "Could not allocate video codec context".to_owned()
        },
        (Player::Audio, SetupStep::AllocateContext) => {
            "Could not allocate audio codec context".to_owned()
        },
        (Player::Video, SetupStep::CopyParameters) => {
            "Could not copy video codec parameters to context".to_owned()
        },
        (Player::Audio, SetupStep::CopyParameters) => {
            "Could not copy audio codec parameters to context".to_owned()
        },
        (Player::Video, SetupStep::OpenCodec) => "Could not open video codec".to_owned(),
        (Player::Audio, SetupStep::OpenCodec) => "Could not open audio codec".to_owned(),
        (_, SetupStep::FindDevice) => "No default audio output device".to_owned(),
        (_, SetupStep::QueryDevice) => {
            with_detail("Could not get default audio output config: ", reason)
        },
        (_, SetupStep::BuildStream) => {
            with_detail("Could not build audio output stream: ", reason)
        },
        (_, SetupStep::StartStream) => {
            with_detail("Could not start audio output stream: ", reason)
        },
        (_, SetupStep::CheckSampleRate) => "Audio stream has no sample rate".to_owned(),
        (_, SetupStep::AllocatePacket) => "Could not allocate audio packet".to_owned(),
        (_, SetupStep::AllocateFrame) => "Could not allocate audio frame".to_owned(),
    }
}

fn release_for(step: SetupStep) -> (release: Vec<Resource>)
    ensures
        release@ == step.releases(),
{
    let (packet, resampler, context, input): (bool, bool, bool, bool) = match step {
        SetupStep::OpenInput => (false, false, false, false),
        SetupStep::ReadStreamInfo
        | SetupStep::FindStream
        | SetupStep::FindDecoder
        | SetupStep::AllocateContext => (false, false, false, true),
        SetupStep::CopyParameters
        | SetupStep::OpenCodec
        | SetupStep::FindDevice
        | SetupStep::QueryDevice
        | SetupStep::BuildStream
        | SetupStep::StartStream
        | SetupStep::CheckSampleRate => (false, false, true, true),
        SetupStep::AllocatePacket => (false, true, true, true),
        SetupStep::AllocateFrame => (true, true, true, true),
    };
    let mut release: Vec<Resource> = Vec::new();
    if packet {
        release.push(Resource::Packet);
    }
    if resampler {
        release.push(Resource::Resampler);
    }
    if context {
        release.push(Resource::CodecContext);
    }
    if input {
        release.push(Resource::Input);
    }
    assert(release@ =~= step.releases());
    release
}

/// What a player does where a step of opening a file fails.
pub fn setup_failure(player: Player, step: SetupStep, path: &str, reason: &str) -> (failure:
    SetupFailure)
    requires
        player is Video ==> step.rank() <= SetupStep::OpenCodec.rank(),
    ensures
        failure.message@ == failure_message(player, step, path@, reason@),
        failure.release@ == step.releases(),
{
    SetupFailure { message: message_for(player, step, path, reason), release: release_for(step) }
}

/// What the video player gives back at once where it cannot play the sound of a
/// video at a step: the context of the sound, if its codec cannot be opened. One
/// whose sound card cannot be used is kept until the end. The video is played
/// without sound.
pub fn silent_video(step: SetupStep) -> (release: Vec<Resource>)
    requires
        SetupStep::FindDecoder.rank() <= step.rank() <= SetupStep::StartStream.rank(),
    ensures
        release@ == (if step is CopyParameters || step is OpenCodec {
            seq![Resource::AudioContext]
        } else {
            seq![]
        }),
        release@ == sound_releases(step),
{
    let mut release: Vec<Resource> = Vec::new();
    match step {
        SetupStep::CopyParameters | SetupStep::OpenCodec => {
            release.push(Resource::AudioContext);
        },
        _ => {},
    }
    assert(release@ =~= (if step is CopyParameters || step is OpenCodec {
        seq![Resource::AudioContext]
    } else {
        seq![]
    }));
    release
}

/// What is given back where the terminal cannot be taken over.
pub open spec fn screen_releases(audio_context: bool) -> Seq<Resource> {
    (if audio_context {
        seq![Resource::AudioContext]
    } else {
        seq![]
    }) + seq![Resource::CodecContext, Resource::Input]
}

/// What is given back at once where the sound of a video fails at a step.
pub open spec fn sound_releases(step: SetupStep) -> Seq<Resource> {
    if step is CopyParameters || step is OpenCodec {
        seq![Resource::AudioContext]
    } else {
        seq![]
    }
}

/// What the audio player gives back at the end.
pub open spec fn audio_releases() -> Seq<Resource> {
    seq![
        Resource::AudioFrame,
        Resource::Packet,
        Resource::Resampler,
        Resource::CodecContext,
        Resource::Input,
    ]
}

/// What the video player gives back where it cannot take over the terminal.
pub fn screen_failure(audio_context: bool) -> (release: Vec<Resource>)
    ensures
        release@ == (if audio_context {
            seq![Resource::AudioContext]
        } else {
            seq![]
        }) + seq![Resource::CodecContext, Resource::Input],
        release@ == screen_releases(audio_context),
{
    let mut release: Vec<Resource> = Vec::new();
    if audio_context {
        release.push(Resource::AudioContext);
    }
    release.push(Resource::CodecContext);
    release.push(Resource::Input);
    assert(release@ =~= (if audio_context {
        seq![Resource::AudioContext]
    } else {
        seq![]
    }) + seq![Resource::CodecContext, Resource::Input]);
    release
}

/// What is given back where it is held.
pub open spec fn where_held(held: bool, resource: Resource) -> Seq<Resource> {
    if held {
        seq![resource]
    } else {
        seq![]
    }
}

impl HeldResources {
    /// What the video player gives back at the end, in order.
    pub open spec fn releases(self) -> Seq<Resource> {
        seq![Resource::Packet, Resource::Frame] + where_held(
            self.audio_frame,
            Resource::AudioFrame,
        ) + where_held(self.scaler, Resource::Scaler) + where_held(
            self.resampler,
            Resource::Resampler,
        ) + seq![Resource::CodecContext] + where_held(self.audio_context, Resource::AudioContext)
            + seq![Resource::Input]
    }

    /// Lists what the video player gives back at the end.
    pub fn release_all(&self) -> (release: Vec<Resource>)
        ensures
            release@ == self.releases(),
    {
        let mut release: Vec<Resource> = Vec::new();
        release.push(Resource::Packet);
        release.push(Resource::Frame);
        if self.audio_frame {
            release.push(Resource::AudioFrame);
        }
        if self.scaler {
            release.push(Resource::Scaler);
        }
        if self.resampler {
            release.push(Resource::Resampler);
        }
        release.push(Resource::CodecContext);
        if self.audio_context {
            release.push(Resource::AudioContext);
        }
        release.push(Resource::Input);
        assert(release@ =~= self.releases());
        release
    }
}

/// What the audio player gives back at the end, in order.
pub fn release_audio() -> (release: Vec<Resource>)
    ensures
        release@ == seq![
            Resource::AudioFrame,
            Resource::Packet,
            Resource::Resampler,
            Resource::CodecContext,
            Resource::Input,
        ],
        release@ == audio_releases(),
{
    let mut release: Vec<Resource> = Vec::new();
    release.push(Resource::AudioFrame);
    release.push(Resource::Packet);
    release.push(Resource::Resampler);
    release.push(Resource::CodecContext);
    release.push(Resource::Input);
    assert(release@ =~= seq![
        Resource::AudioFrame,
        Resource::Packet,
        Resource::Resampler,
        Resource::CodecContext,
        Resource::Input,
    ]);
    release
}

/// Where a step fails, exactly what the steps before it acquired is given back,
/// each of it once.
pub proof fn failure_gives_everything_back(step: SetupStep, resource: Resource)
    ensures
        step.releases().contains(resource) <==> exists|earlier: SetupStep| #[trigger]
            earlier.rank() < step.rank() && earlier.acquires() == Some(resource),
        step.releases().no_duplicates(),
{
    let released = step.releases();
    if released.contains(resource) {
        let earlier = match resource {
            Resource::Input => SetupStep::OpenInput,
            Resource::CodecContext => SetupStep::AllocateContext,
            Resource::Resampler => SetupStep::CheckSampleRate,
            _ => SetupStep::AllocatePacket,
        };
        assert(earlier.rank() < step.rank() && earlier.acquires() == Some(resource));
    }
    if exists|earlier: SetupStep| #[trigger]
        earlier.rank() < step.rank() && earlier.acquires() == Some(resource) {
        let i: int = match resource {
            Resource::Input => released.len() - 1,
            Resource::CodecContext => released.len() - 2,
            Resource::Resampler => released.len() - 3,
            _ => released.len() - 4,
        };
        assert(released[i] == resource);
    }
}

/// A player takes its steps in the order of their ranks and leaves none out; and
/// it holds a file for open exactly when it has taken every one of them.
pub proof fn opening_takes_every_step(player: Player, steps: Seq<SetupStep>, i: int)
    requires
        steps_succeeded(player, steps),
        0 <= i < steps.len(),
    ensures
        steps[i].rank() == i,
        steps.len() <= player.last_step().rank() + 1,
        follows(player, steps.last(), None) <==> steps.len() == player.last_step().rank() + 1,
    decreases i,
{
    step_ranks_count_up(player, steps, i);
    step_ranks_count_up(player, steps, steps.len() - 1);
    if steps.len() > 1 {
        let before = steps.len() - 2;
        step_ranks_count_up(player, steps, before);
        assert(follows(player, steps[before], Some(steps[before + 1])));
    }
}

proof fn step_ranks_count_up(player: Player, steps: Seq<SetupStep>, i: int)
    requires
        steps_succeeded(player, steps),
        0 <= i < steps.len(),
    ensures
        steps[i].rank() == i,
    decreases i,
{
    if i > 0 {
        step_ranks_count_up(player, steps, i - 1);
        assert(follows(player, steps[i - 1], Some(steps[i - 1 + 1])));
    }
}

/// What was acquired last is given back first.
pub proof fn failure_gives_back_the_latest_first(
    step: SetupStep,
    first: SetupStep,
    second: SetupStep,
    i: int,
    j: int,
)
    requires
        first.rank() < second.rank(),
        0 <= i < step.releases().len(),
        0 <= j < step.releases().len(),
        first.acquires() == Some(step.releases()[i]),
        second.acquires() == Some(step.releases()[j]),
    ensures
        j < i,
{
}

/// At the end the video player gives everything back that it holds, each of it
/// once.
pub proof fn end_gives_everything_back(held: HeldResources)
    ensures
        held.releases().no_duplicates(),
        held.releases().contains(Resource::Packet),
        held.releases().contains(Resource::Frame),
        held.releases().contains(Resource::CodecContext),
        held.releases().contains(Resource::Input),
        held.releases().contains(Resource::AudioFrame) <==> held.audio_frame,
        held.releases().contains(Resource::Scaler) <==> held.scaler,
        held.releases().contains(Resource::Resampler) <==> held.resampler,
        held.releases().contains(Resource::AudioContext) <==> held.audio_context,
{
    let all = held.releases();
    let a: int = if held.audio_frame {
        1
    } else {
        0
    };
    let b: int = if held.scaler {
        a + 1
    } else {
        a
    };
    let c: int = if held.resampler {
        b + 1
    } else {
        b
    };
    assert(all[0] == Resource::Packet);
    assert(all[1] == Resource::Frame);
    assert(held.audio_frame ==> all[2] == Resource::AudioFrame);
    assert(held.scaler ==> all[2 + a] == Resource::Scaler);
    assert(held.resampler ==> all[2 + b] == Resource::Resampler);
    assert(all[2 + c] == Resource::CodecContext);
    assert(held.audio_context ==> all[3 + c] == Resource::AudioContext);
    assert(all.last() == Resource::Input);
}

/// The order of the steps: the file is opened and its streams are known before one of
/// them is picked, a decoder is found before it gets a context, and the context is filled
/// before it is opened. Sound is decodable before a sound card is looked for, which is
/// asked what it plays before it is opened and started. With that a video is open; the
/// audio player still needs a sample rate, a packet and a frame.
pub proof fn steps_build_on_each_other()
    ensures
        SetupStep::OpenInput.rank() < SetupStep::ReadStreamInfo.rank(),
        SetupStep::ReadStreamInfo.rank() < SetupStep::FindStream.rank(),
        SetupStep::FindStream.rank() < SetupStep::FindDecoder.rank(),
        SetupStep::FindDecoder.rank() < SetupStep::AllocateContext.rank(),
        SetupStep::AllocateContext.rank() < SetupStep::CopyParameters.rank(),
        SetupStep::CopyParameters.rank() < SetupStep::OpenCodec.rank(),
        SetupStep::OpenCodec.rank() < SetupStep::FindDevice.rank(),
        SetupStep::FindDevice.rank() < SetupStep::QueryDevice.rank(),
        SetupStep::QueryDevice.rank() < SetupStep::BuildStream.rank(),
        SetupStep::BuildStream.rank() < SetupStep::StartStream.rank(),
        SetupStep::StartStream.rank() < SetupStep::CheckSampleRate.rank(),
        SetupStep::CheckSampleRate.rank() < SetupStep::AllocatePacket.rank(),
        SetupStep::AllocatePacket.rank() < SetupStep::AllocateFrame.rank(),
        follows(Player::Video, SetupStep::OpenCodec, None),
        follows(Player::Audio, SetupStep::AllocateFrame, None),
{
}

/// A file that cannot be opened is named in the message, and where the sound card fails
/// the message ends with what the sound system tells. No other message depends on either.
pub proof fn messages_name_the_cause(
    player: Player,
    step: SetupStep,
    path: Seq<char>,
    reason: Seq<char>,
    other_path: Seq<char>,
    other_reason: Seq<char>,
)
    ensures
        ({
            let message = failure_message(player, step, path, reason);
            let by_card = step is QueryDevice || step is BuildStream || step is StartStream;
            &&& step is OpenInput ==> message.len() >= path.len() && message.skip(
                message.len() - path.len(),
            ) == path
            &&& by_card ==> message.len() >= reason.len() && message.skip(
                message.len() - reason.len(),
            ) == reason
            &&& !(step is OpenInput) ==> message == failure_message(
                player,
                step,
                other_path,
                reason,
            )
            &&& !by_card ==> message == failure_message(player, step, path, other_reason)
        }),
{
    let message = failure_message(player, step, path, reason);
    if step is OpenInput {
        assert(message.skip(message.len() - path.len()) =~= path);
    }
    if step is QueryDevice || step is BuildStream || step is StartStream {
        assert(message.skip(message.len() - reason.len()) =~= reason);
    }
}

/// Where the terminal cannot be taken over, both decoders are given back and then the
/// file, each once. A context for the sound of a video is given back at once exactly where
/// it exists and its codec cannot be opened. At its end the audio player gives back
/// everything that its steps acquired and its frame, each once, and the file last.
pub proof fn nothing_stays_held(audio_context: bool, step: SetupStep, resource: Resource)
    ensures
        screen_releases(audio_context).no_duplicates(),
        screen_releases(audio_context).contains(Resource::AudioContext) <==> audio_context,
        screen_releases(audio_context).contains(Resource::CodecContext),
        screen_releases(audio_context).last() == Resource::Input,
        sound_releases(step).contains(Resource::AudioContext) <==> step == SetupStep::CopyParameters
            || step == SetupStep::OpenCodec,
        sound_releases(step).len() <= 1,
        audio_releases().no_duplicates(),
        audio_releases().last() == Resource::Input,
        audio_releases().contains(resource) <==> {
            ||| resource == Resource::AudioFrame
            ||| exists|taken: SetupStep| #[trigger]
                taken.rank() >= 0 && taken.acquires() == Some(resource)
        },
{
    let screen = screen_releases(audio_context);
    assert(screen[screen.len() - 2] == Resource::CodecContext);
    if audio_context {
        assert(screen[0] == Resource::AudioContext);
    }
    let sound = sound_releases(step);
    if sound.len() > 0 {
        assert(sound[0] == Resource::AudioContext);
    }
    let all = audio_releases();
    assert(all[0] == Resource::AudioFrame);
    assert(all[1] == Resource::Packet);
    assert(all[2] == Resource::Resampler);
    assert(all[3] == Resource::CodecContext);
    assert(all[4] == Resource::Input);
    assert(SetupStep::OpenInput.rank() >= 0);
    assert(SetupStep::AllocateContext.rank() >= 0);
    assert(SetupStep::CheckSampleRate.rank() >= 0);
    assert(SetupStep::AllocatePacket.rank() >= 0);
}

} // verus!
