//! Sounds, channels and the commands about them.

use vstd::prelude::*;

use crate::text::same_text;

verus! {

/// A number of the audio engine (a volume, a pitch, a coordinate), as the bits of its
/// single-precision form. Here such numbers are only carried along.
#[derive(Clone, Copy, Debug, PartialEq, Eq, Structural, Hash)]
pub struct Level {
    pub bits: u32,
}

/// The level of silence, 0.0.
pub open spec fn silent() -> Level {
    Level { bits: 0 }
}

/// The level of a sound as it was recorded, 1.0.
pub open spec fn unchanged() -> Level {
    Level { bits: 0x3f80_0000 }
}

impl Level {
    /// The level of silence, 0.0.
    pub fn silence() -> (r: Level)
        ensures
            r == silent(),
    {
        Level { bits: 0 }
    }

    /// The level of a sound as it was recorded, 1.0.
    pub fn full() -> (r: Level)
        ensures
            r == unchanged(),
    {
        Level { bits: 0x3f80_0000 }
    }
}

/// A sound that was asked for.
#[derive(Clone, Copy, Debug, PartialEq, Eq, Structural, Hash)]
pub struct SoundId(pub u64);

/// A channel, by its name.
#[derive(Clone, Copy, Debug)]
pub struct ChannelId(pub &'static str);

impl View for ChannelId {
    type V = Seq<char>;

    open spec fn view(&self) -> Seq<char> {
        self.0@
    }
}

impl ChannelId {
    /// Whether two ids name the same channel.
    pub fn same(&self, other: &ChannelId) -> (r: bool)
        ensures
            r == (self@ == other@),
    {
        same_text(self.0, other.0)
    }
}

/// The course that a gradual change takes, as the host knows it.
#[derive(Clone, Copy, Debug, PartialEq, Eq, Structural, Hash)]
pub struct AudioTween {
    pub key: u64,
}

/// A loaded or loading audio asset, as the host knows it.
#[derive(Clone, Copy, Debug, PartialEq, Eq, Structural, Hash)]
pub struct AudioAsset {
    pub key: u64,
}

/// Where a sound comes from.
#[derive(Clone, Copy, Debug, PartialEq, Eq, Structural)]
pub enum AudioPlayerType {
    NonPositional,
    Spatial2D { x: Level, y: Level },
    Spatial3D { x: Level, y: Level, z: Level },
}

/// How a sound is played.
#[derive(Clone, Copy, Debug, PartialEq, Eq, Structural)]
pub struct AudioSettings {
    pub volume: Level,
    pub pitch: Level,
    pub panning: Option<Level>,
    pub looping: bool,
    pub fade_in: Option<AudioTween>,
}

/// The command to play a sound.
#[derive(Clone, Copy, Debug)]
pub struct PlayCommand {
    pub asset: AudioAsset,
    pub sound_id: SoundId,
    pub channel_id: ChannelId,
    pub player_type: AudioPlayerType,
    pub settings: AudioSettings,
}

/// A command about a sound or a channel.
#[derive(Clone, Copy, Debug)]
pub enum AudioCommand {
    Play(PlayCommand),
    Stop(ChannelId, Option<AudioTween>),
    Pause(ChannelId, Option<AudioTween>),
    Resume(ChannelId, Option<AudioTween>),
    SetVolume(ChannelId, Level, Option<AudioTween>),
    SetPitch(ChannelId, Level, Option<AudioTween>),
    SetPanning(ChannelId, Level, Option<AudioTween>),
    StopSound(SoundId, Option<AudioTween>),
}

/// What can go wrong with a sound.
#[derive(Clone, Copy, Debug)]
pub enum AudioError {
    SoundNotFound(SoundId),
    ChannelNotFound(ChannelId),
}

/// What a gradual change does: it brings a sound up to a volume, or down to silence, or its pitch from
/// one value to another.
#[derive(Clone, Copy, Debug, PartialEq, Eq, Structural)]
pub enum TweenRequest {
    FadeIn { target: Level, tween: AudioTween },
    FadeOut { from: Level, tween: AudioTween },
    Pitch { from: Level, to: Level, tween: AudioTween },
}

/// A gradual change of a sound. The host runs its course, from the first frame at which it is
/// reported with `started` down.
#[derive(Clone, Copy, Debug, PartialEq, Eq, Structural)]
pub struct ActiveTween {
    pub request: TweenRequest,
    pub started: bool,
}

/// What a gradual change is a change of. One that fades out ends the sound.
#[derive(Clone, Copy, Debug, PartialEq, Eq, Structural)]
pub enum TweenType {
    Volume,
    FadeOut,
    Pitch,
}

impl TweenRequest {
    /// What the change is a change of.
    pub open spec fn kind(self) -> TweenType {
        match self {
            TweenRequest::FadeIn { .. } => TweenType::Volume,
            TweenRequest::FadeOut { .. } => TweenType::FadeOut,
            TweenRequest::Pitch { .. } => TweenType::Pitch,
        }
    }

    /// What the change is a change of.
    pub fn tween_type(&self) -> (r: TweenType)
        ensures
            r == self.kind(),
    {
        match self {
            TweenRequest::FadeIn { .. } => TweenType::Volume,
            TweenRequest::FadeOut { .. } => TweenType::FadeOut,
            TweenRequest::Pitch { .. } => TweenType::Pitch,
        }
    }
}

/// Where a gradual change stands at this frame, as the host says.
#[derive(Clone, Copy, Debug, PartialEq, Eq, Structural)]
pub struct TweenReading {
    pub sound_id: SoundId,
    pub value: Level,
    pub complete: bool,
}

} // verus!
