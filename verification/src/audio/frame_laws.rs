//! What every frame keeps, whatever commands it gets and whatever the players report.

use vstd::multiset::Multiset;
use vstd::prelude::*;

use crate::audio::frame::{
    after_command, after_commands, after_reading, after_readings, after_retired, after_tweens,
    before_play, behind_play, faded_out, first_play, is_complete, leaving,
    lemma_before_play, lemma_records_last,
};
use crate::audio::main_thread::{stepped, FrameAction, FrameEvent, Stage};
use crate::audio::output::{
    after_stops, lemma_players_count, players_of, sounds_of, AudioModel, PendingSoundOps,
};
use crate::audio::play::after_play;
use crate::audio::types::{AudioCommand, AudioTween, ChannelId, PlayCommand, SoundId, TweenReading};
use crate::ids::GodotNodeHandle;

verus! {

/// The books agree: the sounds that have a player are those that have a channel and those that have
/// a volume.
pub open spec fn books_agree(m: AudioModel) -> bool {
    &&& m.playing.dom() == m.channel_of.dom()
    &&& m.playing.dom() == m.volumes.dom()
}

/// Only sounds that are playing have something to be done to their player.
pub open spec fn work_is_live(m: AudioModel) -> bool {
    m.ops.dom().subset_of(m.playing.dom())
}

/// The volume that a player is to be set to is the volume on record.
pub open spec fn volumes_are_heard(m: AudioModel) -> bool {
    forall|id: u64|
        m.ops.contains_key(id) && (#[trigger] m.ops[id]).volume is Some ==> m.volumes.contains_key(
            id,
        ) && m.ops[id].volume == Some(m.volumes[id])
}

/// What holds throughout a frame.
pub open spec fn in_order(m: AudioModel) -> bool {
    books_agree(m) && work_is_live(m) && volumes_are_heard(m)
}

/// A frame starts with nothing to be done, which is in order if the books agree.
pub proof fn law_frame_starts_in_order(m: AudioModel)
    requires
        books_agree(m),
        m.ops == Map::<u64, PendingSoundOps>::empty(),
    ensures
        in_order(m),
{
}

proof fn lemma_stops_keep_order(m: AudioModel, ids: Set<u64>)
    requires
        in_order(m),
    ensures
        in_order(after_stops(m, ids)),
{
    let a = after_stops(m, ids);
    let gone = ids.intersect(m.playing.dom());
    assert(a.playing.dom() =~= a.channel_of.dom());
    assert(a.playing.dom() =~= a.volumes.dom());
    assert forall|id: u64| a.ops.contains_key(id) && (#[trigger] a.ops[id]).volume is Some implies
        a.volumes.contains_key(id) && a.ops[id].volume == Some(a.volumes[id]) by {
        assert(m.ops.contains_key(id) && m.ops[id] == a.ops[id]);
    }
}

/// A command keeps the frame in order.
pub proof fn law_command_keeps_order(m: AudioModel, command: AudioCommand)
    requires
        in_order(m),
    ensures
        in_order(after_command(m, command)),
{
    let a = after_command(m, command);
    match command {
        AudioCommand::Stop(channel, None) => {
            lemma_stops_keep_order(m, sounds_of(m.channel_of, channel@));
        },
        AudioCommand::StopSound(sound_id, _) => {
            lemma_stops_keep_order(m, set![sound_id.0]);
        },
        _ => {
            assert(a.volumes.dom() =~= m.volumes.dom());
            assert(a.ops.dom().subset_of(a.playing.dom()));
            assert forall|id: u64|
                a.ops.contains_key(id) && (#[trigger] a.ops[id]).volume is Some implies
                a.volumes.contains_key(id) && a.ops[id].volume == Some(a.volumes[id]) by {
                if m.ops.contains_key(id) {
                    assert(m.ops[id] == m.ops[id]);
                }
            }
        },
    }
}

/// Any commands keep the frame in order.
pub proof fn law_commands_keep_order(m: AudioModel, commands: Seq<AudioCommand>)
    requires
        in_order(m),
    ensures
        in_order(after_commands(m, commands)),
    decreases commands.len(),
{
    if commands.len() > 0 {
        law_commands_keep_order(m, commands.drop_last());
        law_command_keeps_order(after_commands(m, commands.drop_last()), commands.last());
    }
}

/// Playing a new sound keeps the frame in order.
pub proof fn law_play_keeps_order(m: AudioModel, play: PlayCommand, player: GodotNodeHandle)
    requires
        in_order(m),
        !m.playing.contains_key(play.sound_id.0),
    ensures
        in_order(after_play(m, play, player)),
{
    let a = after_play(m, play, player);
    assert(a.playing.dom() =~= a.channel_of.dom());
    assert(a.playing.dom() =~= a.volumes.dom());
    assert forall|id: u64| a.ops.contains_key(id) && (#[trigger] a.ops[id]).volume is Some implies
        a.volumes.contains_key(id) && a.ops[id].volume == Some(a.volumes[id]) by {
        assert(m.playing.contains_key(id));
    }
}

proof fn lemma_readings_keep_order(m: AudioModel, readings: Seq<TweenReading>)
    requires
        in_order(m),
    ensures
        in_order(after_readings(m, readings)),
        after_readings(m, readings).playing == m.playing,
        after_readings(m, readings).stops == m.stops,
    decreases readings.len(),
{
    if readings.len() > 0 {
        lemma_readings_keep_order(m, readings.drop_last());
        let b = after_readings(m, readings.drop_last());
        let reading = readings.last();
        let a = after_reading(b, reading);
        assert(a.volumes.dom() =~= b.volumes.dom());
        assert(a.ops.dom().subset_of(a.playing.dom()));
        assert forall|id: u64|
            a.ops.contains_key(id) && (#[trigger] a.ops[id]).volume is Some implies
            a.volumes.contains_key(id) && a.ops[id].volume == Some(a.volumes[id]) by {
            if b.ops.contains_key(id) {
                assert(b.ops[id] == b.ops[id]);
            }
        }
    }
}

/// Moving the gradual changes on keeps the frame in order, whatever the host reads of them.
pub proof fn law_tweens_keep_order(m: AudioModel, readings: Seq<TweenReading>)
    requires
        in_order(m),
    ensures
        in_order(after_tweens(m, readings)),
{
    lemma_readings_keep_order(m, readings);
    lemma_stops_keep_order(after_readings(m, readings), faded_out(m.tweens, readings));
}

/// When the sounds that came to their end are forgotten, the books still agree.
pub proof fn law_retiring_keeps_books(m: AudioModel, ids: Set<u64>)
    requires
        books_agree(m),
    ensures
        books_agree(after_retired(m, ids)),
        after_retired(m, ids).tweens.dom().disjoint(ids),
{
    let a = after_retired(m, ids);
    assert(a.playing.dom() =~= a.channel_of.dom());
    assert(a.playing.dom() =~= a.volumes.dom());
}

/// A sound that is stopped is out of the books at once, nothing more is done to its player, and
/// that player is listed once more to be stopped and freed.
pub proof fn law_stopped_sound_is_gone(m: AudioModel, ids: Set<u64>, id: u64)
    requires
        m.playing.dom().finite(),
        ids.contains(id),
        m.playing.contains_key(id),
    ensures
        ({
            let a = after_stops(m, ids);
            let player = (SoundId(id), m.playing[id]);
            &&& !a.playing.contains_key(id)
            &&& !a.channel_of.contains_key(id)
            &&& !a.volumes.contains_key(id)
            &&& !a.ops.contains_key(id)
            &&& a.stops.count(player) == m.stops.count(player) + 1
        }),
{
    lemma_players_count(m.playing, ids.intersect(m.playing.dom()), (SoundId(id), m.playing[id]));
}

/// Every player in use: those that are playing and those that are listed to be stopped.
pub open spec fn players_in_use(m: AudioModel) -> Multiset<(SoundId, GodotNodeHandle)> {
    m.stops.add(players_of(m.playing, m.playing.dom()))
}

proof fn lemma_stops_lose_no_player(m: AudioModel, ids: Set<u64>)
    requires
        m.playing.dom().finite(),
    ensures
        players_in_use(after_stops(m, ids)) == players_in_use(m),
        after_stops(m, ids).playing.dom().finite(),
{
    broadcast use vstd::multiset::group_multiset_axioms;

    let a = after_stops(m, ids);
    let gone = ids.intersect(m.playing.dom());
    assert(a.playing.dom() =~= m.playing.dom().difference(gone));
    assert forall|p: (SoundId, GodotNodeHandle)|
        players_in_use(a).count(p) == players_in_use(m).count(p) by {
        lemma_players_count(m.playing, gone, p);
        lemma_players_count(m.playing, m.playing.dom(), p);
        lemma_players_count(a.playing, a.playing.dom(), p);
    }
    assert(players_in_use(a) =~= players_in_use(m));
}

/// No command loses or doubles a player: each that was in use is playing on or listed to be
/// stopped.
pub proof fn law_no_player_is_lost(m: AudioModel, command: AudioCommand)
    requires
        m.playing.dom().finite(),
    ensures
        players_in_use(after_command(m, command)) == players_in_use(m),
        after_command(m, command).playing.dom().finite(),
{
    match command {
        AudioCommand::Stop(channel, None) => {
            lemma_stops_lose_no_player(m, sounds_of(m.channel_of, channel@));
        },
        AudioCommand::StopSound(sound_id, _) => {
            lemma_stops_lose_no_player(m, set![sound_id.0]);
        },
        _ => {},
    }
}

/// Moving the gradual changes on loses or doubles no player either.
pub proof fn law_tweens_lose_no_player(m: AudioModel, readings: Seq<TweenReading>)
    requires
        m.playing.dom().finite(),
        in_order(m),
    ensures
        players_in_use(after_tweens(m, readings)) == players_in_use(m),
{
    lemma_readings_keep_order(m, readings);
    lemma_stops_lose_no_player(after_readings(m, readings), faded_out(m.tweens, readings));
}

/// The channel that a command is for.
pub open spec fn channel_of_command(command: AudioCommand) -> Option<ChannelId> {
    match command {
        AudioCommand::Play(_) => None,
        AudioCommand::Stop(channel, _) => Some(channel),
        AudioCommand::Pause(channel, _) => Some(channel),
        AudioCommand::Resume(channel, _) => Some(channel),
        AudioCommand::SetVolume(channel, _, _) => Some(channel),
        AudioCommand::SetPitch(channel, _, _) => Some(channel),
        AudioCommand::SetPanning(channel, _, _) => Some(channel),
        AudioCommand::StopSound(_, _) => None,
    }
}

/// Whether a sound stands in the same way in two states.
pub open spec fn same_for(a: AudioModel, b: AudioModel, id: u64) -> bool {
    &&& a.playing.contains_key(id) == b.playing.contains_key(id)
    &&& a.playing.contains_key(id) ==> a.playing[id] == b.playing[id]
    &&& a.channel_of.contains_key(id) == b.channel_of.contains_key(id)
    &&& a.channel_of.contains_key(id) ==> a.channel_of[id] == b.channel_of[id]
    &&& a.tweens.contains_key(id) == b.tweens.contains_key(id)
    &&& a.tweens.contains_key(id) ==> a.tweens[id] == b.tweens[id]
    &&& a.volumes.contains_key(id) == b.volumes.contains_key(id)
    &&& a.volumes.contains_key(id) ==> a.volumes[id] == b.volumes[id]
    &&& a.ops.contains_key(id) == b.ops.contains_key(id)
    &&& a.ops.contains_key(id) ==> a.ops[id] == b.ops[id]
}

/// A command for one channel leaves the sounds of the others as they are.
pub proof fn law_channels_do_not_touch(m: AudioModel, command: AudioCommand, id: u64)
    requires
        channel_of_command(command) matches Some(channel) ==> m.channel_of.contains_key(id)
            && m.channel_of[id]@ != channel@,
        channel_of_command(command) is Some,
    ensures
        same_for(after_command(m, command), m, id),
{
}

/// A sound that is to fade out plays on: it leaves neither the books nor its player until the
/// fade-out is complete.
pub proof fn law_fading_sound_plays_on(m: AudioModel, channel: ChannelId, tween: AudioTween)
    ensures
        ({
            let a = after_command(m, AudioCommand::Stop(channel, Some(tween)));
            &&& a.playing == m.playing
            &&& a.channel_of == m.channel_of
            &&& a.volumes == m.volumes
            &&& a.ops == m.ops
            &&& a.stops == m.stops
        }),
{
}

/// A sound whose fade-out is complete is stopped in that frame, and its gradual change ends.
pub proof fn law_faded_sound_is_stopped(m: AudioModel, readings: Seq<TweenReading>, id: u64)
    requires
        m.playing.dom().finite(),
        in_order(m),
        m.tweens.contains_key(id),
        m.tweens[id].request is FadeOut,
        is_complete(readings, id),
        m.playing.contains_key(id),
    ensures
        ({
            let a = after_tweens(m, readings);
            let player = (SoundId(id), m.playing[id]);
            &&& !a.playing.contains_key(id)
            &&& !a.ops.contains_key(id)
            &&& !a.tweens.contains_key(id)
            &&& a.stops.count(player) == m.stops.count(player) + 1
        }),
{
    lemma_readings_keep_order(m, readings);
    lemma_records_last(m, readings, id);
    assert(faded_out(m.tweens, readings).contains(id));
    law_stopped_sound_is_gone(after_readings(m, readings), faded_out(m.tweens, readings), id);
}

/// No gradual change but a fade-out ends a sound: whatever the host reads of them, a sound that is not
/// on record as fading out plays on.
pub proof fn law_only_fade_outs_end_sounds(m: AudioModel, readings: Seq<TweenReading>, id: u64)
    requires
        in_order(m),
        m.playing.contains_key(id),
        !(m.tweens.contains_key(id) && m.tweens[id].request is FadeOut),
    ensures
        after_tweens(m, readings).playing.contains_key(id),
        after_tweens(m, readings).playing[id] == m.playing[id],
{
    lemma_readings_keep_order(m, readings);
}

/// A channel that is stopped with a fade-out is silent in the end: each of its sounds that is playing
/// is stopped in the frame in which the host reads its change as complete.
pub proof fn law_fade_out_ends_the_sound(
    m: AudioModel,
    channel: ChannelId,
    tween: AudioTween,
    readings: Seq<TweenReading>,
    id: u64,
)
    requires
        m.playing.dom().finite(),
        in_order(m),
        sounds_of(m.channel_of, channel@).contains(id),
        is_complete(readings, id),
    ensures
        ({
            let fading = after_command(m, AudioCommand::Stop(channel, Some(tween)));
            let a = after_tweens(fading, readings);
            let player = (SoundId(id), m.playing[id]);
            &&& fading.playing == m.playing
            &&& !a.playing.contains_key(id)
            &&& !a.tweens.contains_key(id)
            &&& a.stops.count(player) == m.stops.count(player) + 1
        }),
{
    let command = AudioCommand::Stop(channel, Some(tween));
    law_command_keeps_order(m, command);
    law_faded_sound_is_stopped(after_command(m, command), readings, id);
}

/// A command to play a sound that cannot be played yet is not lost, nor is any behind it, and none
/// overtakes it: put back at the head, it leaves the queue as it stood from that command on.
pub proof fn law_waiting_play_keeps_its_place(queue: Seq<AudioCommand>)
    requires
        first_play(queue) is Some,
    ensures
        seq![AudioCommand::Play(first_play(queue)->Some_0)] + behind_play(queue) == queue.skip(
            before_play(queue) as int,
        ),
{
    lemma_before_play(queue);
    let n = before_play(queue) as int;
    assert(queue[n] == AudioCommand::Play(first_play(queue)->Some_0));
    assert(seq![queue[n]] + behind_play(queue) =~= queue.skip(n));
}

/// Pausing a channel and then resuming it within a frame leaves the players running: the later
/// command wins.
pub proof fn law_resume_undoes_pause(
    m: AudioModel,
    channel: ChannelId,
    paused: Option<AudioTween>,
    resumed: Option<AudioTween>,
    id: u64,
)
    requires
        sounds_of(m.channel_of, channel@).contains(id),
    ensures
        ({
            let a = after_command(
                after_command(m, AudioCommand::Pause(channel, paused)),
                AudioCommand::Resume(channel, resumed),
            );
            a.ops.contains_key(id) && a.ops[id].paused == Some(false)
        }),
{
}

/// A step of a frame keeps the frame in order, and what is left when the frame is over are books
/// that agree.
pub proof fn law_frame_step_keeps_order(
    stage: Stage,
    event: FrameEvent,
    queue: Seq<AudioCommand>,
    m: AudioModel,
    stops: Seq<(SoundId, GodotNodeHandle)>,
    next_stage: Stage,
    next_queue: Seq<AudioCommand>,
    next: AudioModel,
    next_stops: Seq<(SoundId, GodotNodeHandle)>,
    action: FrameAction,
)
    requires
        stepped(
            stage,
            event,
            queue,
            m,
            stops,
            next_stage,
            next_queue,
            next,
            next_stops,
            action,
        ),
        in_order(m),
        stage matches Stage::Player(play) ==> !m.playing.contains_key(play.sound_id.0),
    ensures
        !(next_stage is Over) ==> in_order(next),
        books_agree(next),
{
    match (stage, event) {
        (Stage::Commands, FrameEvent::Begin) => {
            law_commands_keep_order(m, queue.take(before_play(queue) as int));
        },
        (Stage::Player(play), FrameEvent::Player(Some(player))) => {
            law_play_keeps_order(m, play, player);
            law_commands_keep_order(
                after_play(m, play, player),
                queue.take(before_play(queue) as int),
            );
        },
        (Stage::Tweens, FrameEvent::Tweens(readings)) => {
            law_tweens_keep_order(m, readings@);
        },
        (Stage::Fates, FrameEvent::Fates(fates)) => {
            law_retiring_keeps_books(m, leaving(fates@));
        },
        _ => {},
    }
}

/// Players are stopped in the order in which they were listed: no step of a frame moves or drops one,
/// until all of them are handed over to be stopped, those of the commands before those that faded out.
pub proof fn law_stops_keep_their_order(
    stage: Stage,
    event: FrameEvent,
    queue: Seq<AudioCommand>,
    m: AudioModel,
    stops: Seq<(SoundId, GodotNodeHandle)>,
    next_stage: Stage,
    next_queue: Seq<AudioCommand>,
    next: AudioModel,
    next_stops: Seq<(SoundId, GodotNodeHandle)>,
    action: FrameAction,
)
    requires
        stepped(
            stage,
            event,
            queue,
            m,
            stops,
            next_stage,
            next_queue,
            next,
            next_stops,
            action,
        ),
    ensures
        match action {
            FrameAction::StopPlayers(list) => stops.is_prefix_of(list@) && next_stops.len() == 0,
            _ => stops.is_prefix_of(next_stops),
        },
{
}

/// How far a frame has come.
pub open spec fn rank(stage: Stage) -> int {
    match stage {
        Stage::Commands => 0,
        Stage::Player(_) => 1,
        Stage::Tweens => 2,
        Stage::Stops => 3,
        Stage::Fates => 4,
        Stage::Over => 5,
    }
}

/// A frame comes to its end: every step brings it on, and while it stays with the commands, every
/// step leaves fewer of them. So a sound that cannot be played yet is not tried twice in a frame.
pub proof fn law_frame_comes_to_its_end(
    stage: Stage,
    event: FrameEvent,
    queue: Seq<AudioCommand>,
    m: AudioModel,
    stops: Seq<(SoundId, GodotNodeHandle)>,
    next_stage: Stage,
    next_queue: Seq<AudioCommand>,
    next: AudioModel,
    next_stops: Seq<(SoundId, GodotNodeHandle)>,
    action: FrameAction,
)
    requires
        stepped(
            stage,
            event,
            queue,
            m,
            stops,
            next_stage,
            next_queue,
            next,
            next_stops,
            action,
        ),
    ensures
        rank(next_stage) > rank(stage) || (rank(next_stage) == rank(stage) && next_queue.len()
            < queue.len()),
        event == FrameEvent::Player(None) ==> next_stage is Tweens,
{
    lemma_before_play(queue);
}

} // verus!
