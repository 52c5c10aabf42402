use std::collections::VecDeque;

use godot_bevy::audio::channels::{
    process_channel_commands, AudioApp, GodotAudioChannels, GodotAudioPlugin,
};
use godot_bevy::audio::frame::{
    apply_pending_ops, apply_tweens, due_tweens, next_play, players, retire, settle_command,
    sound_fate, PlayerCall, SoundFate,
};
use godot_bevy::audio::main_thread::{
    audio_main_thread, AudioFrame, FrameAction, FrameEvent, Stage,
};
use godot_bevy::audio::output::{AudioOutput, PendingSoundOps, PendingWork};
use godot_bevy::audio::play::{
    configure_looping, finish_play, process_play_command, record_play, start_audio_playback,
    LoopSetup, PlayerKind, PlayerStep, StreamKind, StreamReading, MASTER_BUS,
};
use godot_bevy::audio::types::{
    ActiveTween, AudioAsset, AudioCommand, AudioError, AudioPlayerType, AudioSettings, AudioTween,
    ChannelId, Level, PlayCommand, SoundId, TweenReading, TweenRequest, TweenType,
};
use godot_bevy::ids::{GodotNodeHandle, InstanceId};

const MUSIC: ChannelId = ChannelId("music");
const EFFECTS: ChannelId = ChannelId("effects");
const FADE: AudioTween = AudioTween { key: 5 };

fn level(value: f32) -> Level {
    Level { bits: value.to_bits() }
}

fn handle(n: i64) -> GodotNodeHandle {
    GodotNodeHandle::from_instance_id(InstanceId::from_i64(n))
}

fn settings() -> AudioSettings {
    AudioSettings {
        volume: level(0.8),
        pitch: level(1.0),
        panning: None,
        looping: false,
        fade_in: None,
    }
}

fn play(id: u64, channel: ChannelId) -> PlayCommand {
    PlayCommand {
        asset: AudioAsset { key: id },
        sound_id: SoundId(id),
        channel_id: channel,
        player_type: AudioPlayerType::NonPositional,
        settings: settings(),
    }
}

/// Two sounds of one channel and one of another.
fn three_sounds() -> AudioOutput {
    let mut output = AudioOutput::new();
    record_play(&mut output, &play(1, MUSIC), handle(101));
    record_play(&mut output, &play(2, MUSIC), handle(102));
    record_play(&mut output, &play(3, EFFECTS), handle(103));
    output
}

fn ops(work: &PendingWork, id: u64) -> Option<PendingSoundOps> {
    work.ops.get(&id).copied()
}

#[test]
fn levels_of_silence_and_full_volume() {
    assert_eq!(Level::silence(), level(0.0));
    assert_eq!(Level::full(), level(1.0));
}

#[test]
fn channels_are_told_by_their_names() {
    assert!(MUSIC.same(&ChannelId("music")));
    assert!(!MUSIC.same(&EFFECTS));
    assert_eq!(GodotAudioPlugin::default(), GodotAudioPlugin);
}

#[test]
fn audio_errors_name_what_is_missing() {
    let errors = [
        AudioError::SoundNotFound(SoundId(4)),
        AudioError::ChannelNotFound(MUSIC),
    ];
    assert!(matches!(errors[0], AudioError::SoundNotFound(SoundId(4))));
    assert!(matches!(errors[1], AudioError::ChannelNotFound(ChannelId("music"))));
}

#[test]
fn channel_statistics() {
    let mut channels = GodotAudioChannels::default();
    assert_eq!(channels.stats(), (0, 0));
    channels.add_audio_channel(MUSIC).add_audio_channel(EFFECTS).add_audio_channel(MUSIC);
    assert!(channels.has_channel(MUSIC));
    assert!(!channels.has_channel(ChannelId("voice")));
    channels.command_queue.push_back(AudioCommand::Pause(MUSIC, None));
    assert_eq!(channels.stats(), (1, 2));
}

#[test]
fn commands_keep_their_order_on_the_way_into_the_queue() {
    let mut channels = GodotAudioChannels::default();
    channels.command_queue.push_back(AudioCommand::Pause(MUSIC, None));
    let mut own = VecDeque::new();
    own.push_back(AudioCommand::Resume(EFFECTS, None));
    own.push_back(AudioCommand::StopSound(SoundId(9), None));
    process_channel_commands(&mut own, &mut channels);
    assert!(own.is_empty());
    assert_eq!(channels.stats().0, 3);
    assert!(matches!(channels.command_queue[0], AudioCommand::Pause(_, _)));
    assert!(matches!(channels.command_queue[1], AudioCommand::Resume(_, _)));
    assert!(matches!(channels.command_queue[2], AudioCommand::StopSound(SoundId(9), _)));
}

#[test]
fn playing_is_recorded() {
    let mut output = AudioOutput::new();
    record_play(&mut output, &play(1, MUSIC), handle(101));
    assert_eq!(output.playing_sounds.get(&1), Some(&handle(101)));
    assert!(output.sound_to_channel[&1].same(&MUSIC));
    assert_eq!(output.current_volumes.get(&1), Some(&level(0.8)));
    assert!(output.active_tweens.is_empty());
}

#[test]
fn fading_in_starts_at_silence() {
    let mut output = AudioOutput::new();
    let mut command = play(1, MUSIC);
    command.settings.fade_in = Some(FADE);
    record_play(&mut output, &command, handle(101));
    assert_eq!(output.current_volumes.get(&1), Some(&level(0.0)));
    assert_eq!(
        output.active_tweens.get(&1),
        Some(&ActiveTween {
            request: TweenRequest::FadeIn { target: level(0.8), tween: FADE },
            started: false,
        })
    );
    let plan = process_play_command(&command, StreamReading::Stream(StreamKind::Wav), true).unwrap();
    assert_eq!(plan.steps[1], PlayerStep::Volume(level(0.0)));
}

#[test]
fn nothing_plays_without_a_stream() {
    assert!(process_play_command(&play(1, MUSIC), StreamReading::NotReady, true).is_none());
    assert!(process_play_command(&play(1, MUSIC), StreamReading::NotAudio, true).is_none());
}

#[test]
fn player_without_a_place() {
    let mut command = play(1, MUSIC);
    let plan = process_play_command(&command, StreamReading::Stream(StreamKind::Other), true).unwrap();
    assert_eq!(plan.kind, PlayerKind::Plain);
    assert_eq!(plan.looping, LoopSetup::Leave);
    assert_eq!(
        plan.steps,
        vec![
            PlayerStep::Stream,
            PlayerStep::Volume(level(0.8)),
            PlayerStep::Pitch(level(1.0)),
            PlayerStep::AddToRoot,
            PlayerStep::Play,
        ]
    );
    command.settings.panning = Some(level(-0.5));
    let plan = process_play_command(&command, StreamReading::Stream(StreamKind::Other), true).unwrap();
    assert_eq!(plan.steps[3], PlayerStep::MasterBus);
    assert_eq!(MASTER_BUS, "Master");
}

#[test]
fn players_with_a_place() {
    let mut command = play(1, MUSIC);
    command.settings.panning = Some(level(0.5));
    command.player_type = AudioPlayerType::Spatial2D { x: level(1.5), y: level(2.5) };
    let plan = process_play_command(&command, StreamReading::Stream(StreamKind::Wav), true).unwrap();
    assert_eq!(plan.kind, PlayerKind::Spatial2D);
    assert_eq!(
        plan.steps,
        vec![
            PlayerStep::Stream,
            PlayerStep::Volume(level(0.8)),
            PlayerStep::Pitch(level(1.0)),
            PlayerStep::Position2D { x: level(1.5), y: level(2.5) },
            PlayerStep::AddToRoot,
            PlayerStep::Play,
        ]
    );
    command.player_type =
        AudioPlayerType::Spatial3D { x: level(1.0), y: level(2.0), z: level(3.0) };
    let plan = process_play_command(&command, StreamReading::Stream(StreamKind::Wav), true).unwrap();
    assert_eq!(plan.kind, PlayerKind::Spatial3D);
    assert_eq!(
        plan.steps[3],
        PlayerStep::Position3D { x: level(1.0), y: level(2.0), z: level(3.0) }
    );
}

#[test]
fn looping_depends_on_the_stream() {
    assert_eq!(configure_looping(StreamKind::OggVorbis, false), LoopSetup::Leave);
    assert_eq!(configure_looping(StreamKind::OggVorbis, true), LoopSetup::SetLoop);
    assert_eq!(configure_looping(StreamKind::Wav, true), LoopSetup::LoopForward);
    assert_eq!(configure_looping(StreamKind::Other, true), LoopSetup::Unsupported);
}

#[test]
fn playback_starts_as_the_first_class_that_fits() {
    assert_eq!(start_audio_playback(true, true, true), Some(PlayerKind::Plain));
    assert_eq!(start_audio_playback(false, true, true), Some(PlayerKind::Spatial2D));
    assert_eq!(start_audio_playback(false, false, true), Some(PlayerKind::Spatial3D));
    assert_eq!(start_audio_playback(false, false, false), None);
}

#[test]
fn stopping_a_channel() {
    let mut output = three_sounds();
    let mut work = PendingWork::new();
    settle_command(&mut output, &mut work, AudioCommand::Pause(MUSIC, None));
    settle_command(&mut output, &mut work, AudioCommand::Stop(MUSIC, None));
    let mut stopped: Vec<u64> = work.stops.iter().map(|(id, _)| id.0).collect();
    stopped.sort();
    assert_eq!(stopped, vec![1, 2]);
    assert!(work.stops.contains(&(SoundId(1), handle(101))));
    assert!(work.ops.is_empty());
    assert_eq!(output.playing_sounds.len(), 1);
    assert_eq!(output.sound_to_channel.len(), 1);
    assert_eq!(output.current_volumes.len(), 1);
    assert!(output.playing_sounds.contains_key(&3));
}

#[test]
fn fading_a_channel_out_keeps_it_playing() {
    let mut output = three_sounds();
    output.current_volumes.remove(&2);
    let mut work = PendingWork::new();
    settle_command(&mut output, &mut work, AudioCommand::Stop(MUSIC, Some(FADE)));
    assert_eq!(output.playing_sounds.len(), 3);
    assert!(work.stops.is_empty());
    assert_eq!(
        output.active_tweens.get(&1),
        Some(&ActiveTween {
            request: TweenRequest::FadeOut { from: level(0.8), tween: FADE },
            started: false,
        })
    );
    // A sound whose volume is not known fades out from full volume.
    assert_eq!(
        output.active_tweens.get(&2),
        Some(&ActiveTween {
            request: TweenRequest::FadeOut { from: level(1.0), tween: FADE },
            started: false,
        })
    );
    assert_eq!(output.active_tweens.get(&3), None);
}

#[test]
fn channel_settings_reach_every_sound_of_the_channel() {
    let mut output = three_sounds();
    let mut work = PendingWork::new();
    settle_command(&mut output, &mut work, AudioCommand::SetVolume(MUSIC, level(0.3), None));
    settle_command(&mut output, &mut work, AudioCommand::SetPitch(MUSIC, level(2.0), None));
    settle_command(&mut output, &mut work, AudioCommand::Pause(MUSIC, None));
    settle_command(&mut output, &mut work, AudioCommand::SetPanning(MUSIC, level(0.1), None));
    for id in [1, 2] {
        assert_eq!(
            ops(&work, id),
            Some(PendingSoundOps {
                volume: Some(level(0.3)),
                pitch: Some(level(2.0)),
                paused: Some(true),
            })
        );
        assert_eq!(output.current_volumes.get(&id), Some(&level(0.3)));
    }
    assert_eq!(ops(&work, 3), None);
    assert_eq!(output.current_volumes.get(&3), Some(&level(0.8)));
    assert_eq!(
        apply_pending_ops(&work, SoundId(1)),
        vec![
            PlayerCall::SetVolume(level(0.3)),
            PlayerCall::SetPitch(level(2.0)),
            PlayerCall::SetPaused(true),
        ]
    );
    assert_eq!(apply_pending_ops(&work, SoundId(3)), vec![]);
}

#[test]
fn resuming_undoes_pausing() {
    let mut output = three_sounds();
    let mut work = PendingWork::new();
    settle_command(&mut output, &mut work, AudioCommand::Pause(MUSIC, None));
    settle_command(&mut output, &mut work, AudioCommand::Resume(MUSIC, None));
    assert_eq!(apply_pending_ops(&work, SoundId(2)), vec![PlayerCall::SetPaused(false)]);
}

#[test]
fn stopping_one_sound() {
    let mut output = three_sounds();
    let mut work = PendingWork::new();
    settle_command(&mut output, &mut work, AudioCommand::StopSound(SoundId(2), Some(FADE)));
    settle_command(&mut output, &mut work, AudioCommand::StopSound(SoundId(2), None));
    settle_command(&mut output, &mut work, AudioCommand::StopSound(SoundId(77), None));
    assert_eq!(work.stops, vec![(SoundId(2), handle(102))]);
    assert_eq!(output.playing_sounds.len(), 2);
}

#[test]
fn commands_are_settled_up_to_the_next_play() {
    let mut channels = GodotAudioChannels::default();
    let mut output = three_sounds();
    let mut work = PendingWork::new();
    channels.command_queue.push_back(AudioCommand::StopSound(SoundId(1), None));
    channels.command_queue.push_back(AudioCommand::Play(play(7, EFFECTS)));
    channels.command_queue.push_back(AudioCommand::StopSound(SoundId(2), None));
    let command = next_play(&mut channels, &mut output, &mut work).unwrap();
    assert_eq!(command.sound_id, SoundId(7));
    assert_eq!(work.stops, vec![(SoundId(1), handle(101))]);
    assert_eq!(channels.stats().0, 1);
    assert!(next_play(&mut channels, &mut output, &mut work).is_none());
    assert_eq!(work.stops.len(), 2);
    assert_eq!(channels.stats().0, 0);
}

#[test]
fn a_play_that_is_not_ready_goes_back_to_the_head() {
    let mut channels = GodotAudioChannels::default();
    let mut output = AudioOutput::new();
    channels.command_queue.push_back(AudioCommand::StopSound(SoundId(2), None));
    assert!(!finish_play(&mut channels, &mut output, play(7, EFFECTS), None));
    assert_eq!(channels.stats().0, 2);
    assert!(matches!(
        channels.command_queue[0],
        AudioCommand::Play(PlayCommand { sound_id: SoundId(7), .. })
    ));
    assert!(output.playing_sounds.is_empty());
    assert!(finish_play(&mut channels, &mut output, play(7, EFFECTS), Some(handle(9))));
    assert_eq!(channels.stats().0, 2);
    assert_eq!(output.playing_sounds.get(&7), Some(&handle(9)));
}

#[test]
fn gradual_changes_move_on() {
    let mut output = three_sounds();
    let mut work = PendingWork::new();
    settle_command(&mut output, &mut work, AudioCommand::Stop(MUSIC, Some(FADE)));
    assert_eq!(due_tweens(&output).len(), 2);
    let reading = |id: u64, value: f32, complete: bool| TweenReading {
        sound_id: SoundId(id),
        value: level(value),
        complete,
    };
    apply_tweens(&mut output, &mut work, &vec![reading(1, 0.4, false), reading(2, 0.0, true)]);
    assert_eq!(output.current_volumes.get(&1), Some(&level(0.4)));
    assert_eq!(ops(&work, 1).unwrap().volume, Some(level(0.4)));
    assert!(output.active_tweens[&1].started);
    assert_eq!(output.active_tweens.get(&2), None);
    assert_eq!(work.stops, vec![(SoundId(2), handle(102))]);
    assert_eq!(ops(&work, 2), None);
}

#[test]
fn a_complete_fade_in_does_not_stop_the_sound() {
    let mut output = AudioOutput::new();
    let mut command = play(1, MUSIC);
    command.settings.fade_in = Some(FADE);
    record_play(&mut output, &command, handle(101));
    let mut work = PendingWork::new();
    apply_tweens(
        &mut output,
        &mut work,
        &vec![TweenReading {
            sound_id: SoundId(1),
            value: level(0.8),
            complete: true,
        }],
    );
    assert!(output.active_tweens.is_empty());
    assert!(work.stops.is_empty());
    assert_eq!(output.current_volumes.get(&1), Some(&level(0.8)));
}

#[test]
fn a_pitch_change_leaves_the_volume_alone() {
    let mut output = three_sounds();
    let mut work = PendingWork::new();
    let request = TweenRequest::Pitch { from: level(1.0), to: level(2.0), tween: FADE };
    assert_eq!(request.tween_type(), TweenType::Pitch);
    for id in [1, 50] {
        output.active_tweens.insert(id, ActiveTween { request, started: false });
    }
    let reading = |id: u64| TweenReading {
        sound_id: SoundId(id),
        value: level(1.5),
        complete: true,
    };
    apply_tweens(&mut output, &mut work, &vec![reading(1), reading(50)]);
    assert_eq!(apply_pending_ops(&work, SoundId(1)), vec![PlayerCall::SetPitch(level(1.5))]);
    assert_eq!(output.current_volumes.get(&1), Some(&level(0.8)));
    // Nothing is done to a sound that is not playing, and no sound ends.
    assert_eq!(ops(&work, 50), None);
    assert!(work.stops.is_empty());
    assert!(output.active_tweens.is_empty());
}

#[test]
fn a_reading_without_a_record_does_nothing() {
    let mut output = three_sounds();
    let mut work = PendingWork::new();
    let reading = TweenReading { sound_id: SoundId(1), value: level(0.1), complete: true };
    apply_tweens(&mut output, &mut work, &vec![reading]);
    assert!(work.ops.is_empty());
    assert!(work.stops.is_empty());
    assert_eq!(output.current_volumes.get(&1), Some(&level(0.8)));
}

#[test]
fn without_a_root_a_player_is_only_started() {
    let reading = StreamReading::Stream(StreamKind::Wav);
    let plan = process_play_command(&play(1, MUSIC), reading, false).unwrap();
    assert!(!plan.steps.contains(&PlayerStep::AddToRoot));
    assert_eq!(plan.steps.last(), Some(&PlayerStep::Play));
}

#[test]
fn sounds_that_ended_are_forgotten() {
    assert_eq!(sound_fate(None), SoundFate::Lost);
    assert_eq!(sound_fate(Some(true)), SoundFate::Stays);
    assert_eq!(sound_fate(Some(false)), SoundFate::Ends);
    let mut output = three_sounds();
    let mut work = PendingWork::new();
    settle_command(&mut output, &mut work, AudioCommand::Stop(MUSIC, Some(FADE)));
    retire(
        &mut output,
        &vec![
            (SoundId(1), SoundFate::Lost),
            (SoundId(2), SoundFate::Stays),
            (SoundId(3), SoundFate::Ends),
        ],
    );
    assert_eq!(players(&output), vec![(SoundId(2), handle(102))]);
    assert_eq!(output.active_tweens.len(), 1);
    assert_eq!(output.sound_to_channel.len(), 1);
    assert_eq!(output.current_volumes.len(), 1);
}

#[test]
fn a_whole_frame() {
    let mut channels = GodotAudioChannels::default();
    let mut output = three_sounds();
    channels.command_queue.push_back(AudioCommand::Play(play(7, EFFECTS)));
    channels.command_queue.push_back(AudioCommand::Stop(MUSIC, None));
    channels.command_queue.push_back(AudioCommand::SetVolume(EFFECTS, level(0.2), None));
    let mut frame = AudioFrame::new();

    let action = audio_main_thread(&mut frame, &mut channels, &mut output, FrameEvent::Begin);
    assert!(matches!(
        action,
        FrameAction::CreatePlayer(PlayCommand { sound_id: SoundId(7), .. })
    ));
    let action = audio_main_thread(
        &mut frame,
        &mut channels,
        &mut output,
        FrameEvent::Player(Some(handle(107))),
    );
    assert!(matches!(action, FrameAction::ReadTweens(ref list) if list.is_empty()));
    let action =
        audio_main_thread(&mut frame, &mut channels, &mut output, FrameEvent::Tweens(vec![]));
    match action {
        FrameAction::StopPlayers(list) => {
            assert_eq!(list.len(), 2);
            assert!(list.contains(&(SoundId(1), handle(101))));
            assert!(list.contains(&(SoundId(2), handle(102))));
        }
        other => panic!("{other:?}"),
    }
    let action = audio_main_thread(&mut frame, &mut channels, &mut output, FrameEvent::Stopped);
    let mut fates = Vec::new();
    match action {
        FrameAction::TendPlayers(tasks) => {
            assert_eq!(tasks.len(), 2);
            for task in tasks {
                assert_eq!(task.calls, vec![PlayerCall::SetVolume(level(0.2))]);
                let playing = task.player == handle(107);
                fates.push((task.sound_id, sound_fate(Some(playing))));
            }
        }
        other => panic!("{other:?}"),
    }
    let action =
        audio_main_thread(&mut frame, &mut channels, &mut output, FrameEvent::Fates(fates));
    assert!(matches!(action, FrameAction::Done));
    assert!(matches!(frame.stage, Stage::Over));
    assert_eq!(players(&output), vec![(SoundId(7), handle(107))]);
    assert_eq!(channels.stats().0, 0);
}

#[test]
fn players_are_stopped_in_the_order_of_the_commands() {
    let mut channels = GodotAudioChannels::default();
    let mut output = three_sounds();
    let rain = ChannelId("rain");
    record_play(&mut output, &play(4, rain), handle(104));
    let fade = AudioCommand::Stop(rain, Some(FADE));
    settle_command(&mut output, &mut PendingWork::new(), fade);
    for id in [3, 1] {
        channels.command_queue.push_back(AudioCommand::StopSound(SoundId(id), None));
    }
    channels.command_queue.push_back(AudioCommand::Play(play(7, EFFECTS)));
    channels.command_queue.push_back(AudioCommand::StopSound(SoundId(7), None));
    channels.command_queue.push_back(AudioCommand::Stop(MUSIC, None));
    let mut frame = AudioFrame::new();
    audio_main_thread(&mut frame, &mut channels, &mut output, FrameEvent::Begin);
    assert_eq!(frame.work.stops, vec![(SoundId(3), handle(103)), (SoundId(1), handle(101))]);
    let player = FrameEvent::Player(Some(handle(107)));
    audio_main_thread(&mut frame, &mut channels, &mut output, player);
    let faded = TweenReading { sound_id: SoundId(4), value: level(0.0), complete: true };
    let action =
        audio_main_thread(&mut frame, &mut channels, &mut output, FrameEvent::Tweens(vec![faded]));
    match action {
        FrameAction::StopPlayers(list) => {
            let order: Vec<u64> = list.iter().map(|(id, _)| id.0).collect();
            assert_eq!(order, vec![3, 1, 7, 2, 4]);
        }
        other => panic!("{other:?}"),
    }
    assert!(frame.work.stops.is_empty());
}

#[test]
fn a_frame_does_not_retry() {
    let mut channels = GodotAudioChannels::default();
    let mut output = AudioOutput::new();
    channels.command_queue.push_back(AudioCommand::Play(play(7, EFFECTS)));
    channels.command_queue.push_back(AudioCommand::Play(play(8, EFFECTS)));
    let mut frame = AudioFrame::new();
    audio_main_thread(&mut frame, &mut channels, &mut output, FrameEvent::Begin);
    let action =
        audio_main_thread(&mut frame, &mut channels, &mut output, FrameEvent::Player(None));
    assert!(matches!(action, FrameAction::ReadTweens(_)));
    assert_eq!(channels.stats().0, 2);
    assert!(matches!(
        channels.command_queue[0],
        AudioCommand::Play(PlayCommand { sound_id: SoundId(7), .. })
    ));
}
