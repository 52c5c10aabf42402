//! How a sound comes to be played: the player it gets, and how it is taken into the books.

use vstd::prelude::*;

use crate::audio::channels::GodotAudioChannels;
use crate::audio::output::{model, AudioModel, AudioOutput, PendingWork};
use crate::audio::types::{
    silent, ActiveTween, AudioCommand, AudioPlayerType, AudioSettings, Level, PlayCommand,
    TweenRequest,
};
use crate::ids::GodotNodeHandle;

verus! {

broadcast use vstd::std_specs::hash::group_hash_axioms;

/// The bus that a player with panning is put on.
pub const MASTER_BUS: &'static str = "Master";

/// What kind of stream an audio asset holds, as far as looping goes.
#[derive(Clone, Copy, Debug, PartialEq, Eq, Structural)]
pub enum StreamKind {
    OggVorbis,
    Wav,
    Other,
}

/// What the host finds at an audio asset.
#[derive(Clone, Copy, Debug, PartialEq, Eq, Structural)]
pub enum StreamReading {
    /// The asset is not loaded yet.
    NotReady,
    /// The asset is something else than an audio stream.
    NotAudio,
    Stream(StreamKind),
}

/// What is done to a stream so that it loops.
#[derive(Clone, Copy, Debug, PartialEq, Eq, Structural)]
pub enum LoopSetup {
    /// The stream stays as it is, as was asked for.
    Leave,
    /// The loop flag of the stream is set.
    SetLoop,
    /// The loop mode of the stream is set to forward.
    LoopForward,
    /// The stream stays as it is, though looping was asked for.
    Unsupported,
}

/// The class of a player.
#[derive(Clone, Copy, Debug, PartialEq, Eq, Structural)]
pub enum PlayerKind {
    Plain,
    Spatial2D,
    Spatial3D,
}

/// One step of bringing a new player to play.
#[derive(Clone, Copy, Debug, PartialEq, Eq, Structural)]
pub enum PlayerStep {
    Stream,
    Volume(Level),
    Pitch(Level),
    MasterBus,
    Position2D { x: Level, y: Level },
    Position3D { x: Level, y: Level, z: Level },
    /// The player is put below the root of the scene tree.
    AddToRoot,
    /// Playback starts.
    Play,
}

/// The player that a sound gets.
#[derive(Debug)]
pub struct PlayerPlan {
    pub looping: LoopSetup,
    pub kind: PlayerKind,
    pub steps: Vec<PlayerStep>,
}

/// What is done to a stream of that kind so that it loops, if it is to.
pub open spec fn loop_setup(kind: StreamKind, looping: bool) -> LoopSetup {
    if !looping {
        LoopSetup::Leave
    } else {
        match kind {
            StreamKind::OggVorbis => LoopSetup::SetLoop,
            StreamKind::Wav => LoopSetup::LoopForward,
            StreamKind::Other => LoopSetup::Unsupported,
        }
    }
}

/// What is done to a stream of that kind so that it loops, if it is to.
pub fn configure_looping(kind: StreamKind, looping: bool) -> (r: LoopSetup)
    ensures
        r == loop_setup(kind, looping),
{
    if !looping {
        return LoopSetup::Leave;
    }
    match kind {
        StreamKind::OggVorbis => LoopSetup::SetLoop,
        StreamKind::Wav => LoopSetup::LoopForward,
        StreamKind::Other => LoopSetup::Unsupported,
    }
}

/// The volume at which a sound starts: silence, if it is to fade in.
pub open spec fn first_volume(settings: AudioSettings) -> Level {
    if settings.fade_in is Some {
        silent()
    } else {
        settings.volume
    }
}

/// The volume at which a sound starts: silence, if it is to fade in.
pub fn initial_volume(settings: &AudioSettings) -> (r: Level)
    ensures
        r == first_volume(*settings),
{
    match settings.fade_in {
        Some(_) => Level::silence(),
        None => settings.volume,
    }
}

/// The class of the player for a sound from there.
pub open spec fn kind_of(player_type: AudioPlayerType) -> PlayerKind {
    match player_type {
        AudioPlayerType::NonPositional => PlayerKind::Plain,
        AudioPlayerType::Spatial2D { .. } => PlayerKind::Spatial2D,
        AudioPlayerType::Spatial3D { .. } => PlayerKind::Spatial3D,
    }
}

/// What a new player is told besides its stream, volume and pitch. Only a player without a place
/// heeds the panning.
pub open spec fn placing(player_type: AudioPlayerType, settings: AudioSettings) -> Seq<PlayerStep> {
    match player_type {
        AudioPlayerType::NonPositional => if settings.panning is Some {
            seq![PlayerStep::MasterBus]
        } else {
            seq![]
        },
        AudioPlayerType::Spatial2D { x, y } => seq![PlayerStep::Position2D { x, y }],
        AudioPlayerType::Spatial3D { x, y, z } => seq![PlayerStep::Position3D { x, y, z }],
    }
}

/// How a new player is started once it is set up: only a player in the tree can play, so it is put
/// below the root first, if there is one.
pub open spec fn starting(has_root: bool) -> Seq<PlayerStep> {
    if has_root {
        seq![PlayerStep::AddToRoot, PlayerStep::Play]
    } else {
        seq![PlayerStep::Play]
    }
}

/// How a new player is set up, step by step.
pub open spec fn setup(player_type: AudioPlayerType, settings: AudioSettings) -> Seq<PlayerStep> {
    seq![
        PlayerStep::Stream,
        PlayerStep::Volume(first_volume(settings)),
        PlayerStep::Pitch(settings.pitch),
    ] + placing(player_type, settings)
}

fn begin_setup(settings: &AudioSettings) -> (r: Vec<PlayerStep>)
    ensures
        r@ == seq![
            PlayerStep::Stream,
            PlayerStep::Volume(first_volume(*settings)),
            PlayerStep::Pitch(settings.pitch),
        ],
{
    let mut r: Vec<PlayerStep> = Vec::new();
    r.push(PlayerStep::Stream);
    r.push(PlayerStep::Volume(initial_volume(settings)));
    r.push(PlayerStep::Pitch(settings.pitch));
    r
}

/// How a player without a place is set up.
pub fn create_audio_player(settings: &AudioSettings) -> (r: Vec<PlayerStep>)
    ensures
        r@ == setup(AudioPlayerType::NonPositional, *settings),
{
    let mut r = begin_setup(settings);
    if settings.panning.is_some() {
        r.push(PlayerStep::MasterBus);
    }
    assert(r@ =~= setup(AudioPlayerType::NonPositional, *settings));
    r
}

/// How a player with a place in the plane is set up.
pub fn create_audio_player_2d(settings: &AudioSettings, x: Level, y: Level) -> (r: Vec<PlayerStep>)
    ensures
        r@ == setup(AudioPlayerType::Spatial2D { x, y }, *settings),
{
    let mut r = begin_setup(settings);
    r.push(PlayerStep::Position2D { x, y });
    assert(r@ =~= setup(AudioPlayerType::Spatial2D { x, y }, *settings));
    r
}

/// How a player with a place in space is set up.
pub fn create_audio_player_3d(settings: &AudioSettings, x: Level, y: Level, z: Level) -> (r: Vec<
    PlayerStep,
>)
    ensures
        r@ == setup(AudioPlayerType::Spatial3D { x, y, z }, *settings),
{
    let mut r = begin_setup(settings);
    r.push(PlayerStep::Position3D { x, y, z });
    assert(r@ =~= setup(AudioPlayerType::Spatial3D { x, y, z }, *settings));
    r
}

/// The player for a sound, given what the host finds at the asset and whether the scene tree has a
/// root. There is none as long as the asset is not an audio stream.
pub fn process_play_command(play_cmd: &PlayCommand, stream: StreamReading, has_root: bool) -> (r:
    Option<PlayerPlan>)
    ensures
        r is Some <==> stream is Stream,
        r matches Some(plan) ==> {
            &&& plan.looping == loop_setup(stream->Stream_0, play_cmd.settings.looping)
            &&& plan.kind == kind_of(play_cmd.player_type)
            &&& plan.steps@ == setup(play_cmd.player_type, play_cmd.settings) + starting(has_root)
        },
{
    let kind: StreamKind = match stream {
        StreamReading::NotReady => {
            return None;
        },
        StreamReading::NotAudio => {
            return None;
        },
        StreamReading::Stream(kind) => kind,
    };
    let looping = configure_looping(kind, play_cmd.settings.looping);
    let (kind, mut steps) = match play_cmd.player_type {
        AudioPlayerType::NonPositional => (
            PlayerKind::Plain,
            create_audio_player(&play_cmd.settings),
        ),
        AudioPlayerType::Spatial2D { x, y } => (
            PlayerKind::Spatial2D,
            create_audio_player_2d(&play_cmd.settings, x, y),
        ),
        AudioPlayerType::Spatial3D { x, y, z } => (
            PlayerKind::Spatial3D,
            create_audio_player_3d(&play_cmd.settings, x, y, z),
        ),
    };
    if has_root {
        steps.push(PlayerStep::AddToRoot);
    }
    steps.push(PlayerStep::Play);
    assert(steps@ =~= setup(play_cmd.player_type, play_cmd.settings) + starting(has_root));
    Some(PlayerPlan { looping, kind, steps })
}

/// A new player is started once, as the last step, and put below the root once, if there is one,
/// right before that: never does it play outside the tree that it is to play in.
pub proof fn law_player_is_placed_before_it_plays(
    player_type: AudioPlayerType,
    settings: AudioSettings,
    has_root: bool,
)
    ensures
        ({
            let steps = setup(player_type, settings) + starting(has_root);
            let n = steps.len() as int;
            &&& n >= 2
            &&& forall|i: int| 0 <= i < n ==> ((#[trigger] steps[i]) is Play <==> i == n - 1)
            &&& forall|i: int|
                0 <= i < n ==> ((#[trigger] steps[i]) is AddToRoot <==> has_root && i == n - 2)
        }),
{
}

/// As which class a node is started, of those that it can be taken for: the first of plain, in the
/// plane, in space.
pub fn start_audio_playback(plain: bool, spatial_2d: bool, spatial_3d: bool) -> (r: Option<
    PlayerKind,
>)
    ensures
        r == (if plain {
            Some(PlayerKind::Plain)
        } else if spatial_2d {
            Some(PlayerKind::Spatial2D)
        } else if spatial_3d {
            Some(PlayerKind::Spatial3D)
        } else {
            None
        }),
{
    if plain {
        Some(PlayerKind::Plain)
    } else if spatial_2d {
        Some(PlayerKind::Spatial2D)
    } else if spatial_3d {
        Some(PlayerKind::Spatial3D)
    } else {
        None
    }
}

/// The state after a sound began to play on a player: it belongs to its channel, has the volume at
/// which it starts, and fades in if it is to.
pub open spec fn after_play(m: AudioModel, play: PlayCommand, player: GodotNodeHandle) -> AudioModel {
    let id = play.sound_id.0;
    AudioModel {
        playing: m.playing.insert(id, player),
        channel_of: m.channel_of.insert(id, play.channel_id),
        volumes: m.volumes.insert(id, first_volume(play.settings)),
        tweens: match play.settings.fade_in {
            Some(tween) => m.tweens.insert(
                id,
                ActiveTween {
                    request: TweenRequest::FadeIn { target: play.settings.volume, tween },
                    started: false,
                },
            ),
            None => m.tweens,
        },
        ..m
    }
}

/// Take a sound that began to play into the books.
pub fn record_play(output: &mut AudioOutput, play_cmd: &PlayCommand, player: GodotNodeHandle)
    ensures
        forall|work: PendingWork| #[trigger]
            model(*final(output), work) == after_play(model(*old(output), work), *play_cmd, player),
{
    let ghost before = *output;
    let id: u64 = play_cmd.sound_id.0;
    output.playing_sounds.insert(id, player);
    output.sound_to_channel.insert(id, play_cmd.channel_id);
    output.current_volumes.insert(id, initial_volume(&play_cmd.settings));
    if let Some(tween) = play_cmd.settings.fade_in {
        output.active_tweens.insert(
            id,
            ActiveTween {
                request: TweenRequest::FadeIn { target: play_cmd.settings.volume, tween },
                started: false,
            },
        );
    }
    assert forall|work: PendingWork| #[trigger]
        model(*output, work) == after_play(model(before, work), *play_cmd, player) by {
        assert(model(*output, work) =~= after_play(model(before, work), *play_cmd, player));
    }
}

/// Finish a command to play a sound. With a player the sound is taken into the books and the frame
/// goes on; without one the command goes back to the head of the queue, and the frame takes no
/// further command.
pub fn finish_play(
    channels: &mut GodotAudioChannels,
    output: &mut AudioOutput,
    play_cmd: PlayCommand,
    player: Option<GodotNodeHandle>,
) -> (goes_on: bool)
    ensures
        goes_on == player is Some,
        final(channels).channels@ == old(channels).channels@,
        match player {
            Some(player) => {
                &&& final(channels).command_queue@ == old(channels).command_queue@
                &&& forall|work: PendingWork| #[trigger]
                    model(*final(output), work) == after_play(
                        model(*old(output), work),
                        play_cmd,
                        player,
                    )
            },
            None => {
                &&& final(channels).command_queue@ == seq![AudioCommand::Play(play_cmd)] + old(
                    channels,
                ).command_queue@
                &&& *final(output) == *old(output)
            },
        },
{
    match player {
        Some(player) => {
            record_play(output, &play_cmd, player);
            true
        },
        None => {
            channels.command_queue.push_front(AudioCommand::Play(play_cmd));
            false
        },
    }
}

} // verus!
