//! What each command, each reading and each step of a frame comes to, said sound by sound.

use vstd::prelude::*;

use crate::audio::frame::{
    after_command, after_commands, after_reading, after_readings, after_retired, after_tweens,
    before_play, behind_play, calls_of, fate, faded_out, first_play, is_complete, leaving,
    lemma_before_play, listed_in_order, PlayerCall, SoundFate,
};
use crate::audio::main_thread::{stepped, FrameAction, FrameEvent, Stage};
use crate::audio::output::{
    after_stops, lemma_players_count, model, ops_of, patched_all, sounds_of, AudioModel,
    AudioOutput, OpsPatch, PendingSoundOps, PendingWork,
};
use crate::audio::play::{
    after_play, first_volume, kind_of, loop_setup, setup, starting, LoopSetup, PlayerKind,
    PlayerStep, StreamKind, MASTER_BUS,
};
use crate::audio::types::{
    silent, unchanged, ActiveTween, AudioCommand, AudioPlayerType, AudioSettings, AudioTween,
    ChannelId, Level, PlayCommand, SoundId, TweenReading, TweenRequest, TweenType,
};
use crate::ids::GodotNodeHandle;

verus! {

broadcast use vstd::multiset::group_multiset_axioms;

/// Nothing is lost or changed on the way into the model: each part of it is one of the books.
pub proof fn law_model_shows_the_books(output: AudioOutput, work: PendingWork)
    ensures
        model(output, work).playing == output.playing_sounds@,
        model(output, work).channel_of == output.sound_to_channel@,
        model(output, work).tweens == output.active_tweens@,
        model(output, work).volumes == output.current_volumes@,
        model(output, work).ops == work.ops@,
        model(output, work).stops == work.stops@.to_multiset(),
{
}

/// Whether a sound is on a channel.
pub open spec fn is_on(m: AudioModel, id: u64, channel: ChannelId) -> bool {
    m.channel_of.contains_key(id) && m.channel_of[id].0@ == channel.0@
}

/// Whether the books say the same: who plays, on which channel, how loud, what changes gradually, and
/// which players are to be stopped.
pub open spec fn same_books(a: AudioModel, b: AudioModel) -> bool {
    &&& a.playing == b.playing
    &&& a.channel_of == b.channel_of
    &&& a.tweens == b.tweens
    &&& a.volumes == b.volumes
    &&& a.stops == b.stops
}

/// What was to be done to the player of a sound before: nothing, if nothing was noted.
pub open spec fn noted(m: AudioModel, id: u64) -> (Option<Level>, Option<Level>, Option<bool>) {
    if m.ops.contains_key(id) {
        (m.ops[id].volume, m.ops[id].pitch, m.ops[id].paused)
    } else {
        (None, None, None)
    }
}

/// Whether exactly this is to be done to the player of a sound.
pub open spec fn notes(
    m: AudioModel,
    id: u64,
    what: (Option<Level>, Option<Level>, Option<bool>),
) -> bool {
    &&& m.ops.contains_key(id)
    &&& m.ops[id].volume == what.0
    &&& m.ops[id].pitch == what.1
    &&& m.ops[id].paused == what.2
}

/// Whether the same is to be done to the player of a sound.
pub open spec fn same_notes(a: AudioModel, b: AudioModel, id: u64) -> bool {
    &&& a.ops.contains_key(id) == b.ops.contains_key(id)
    &&& a.ops.contains_key(id) ==> a.ops[id] == b.ops[id]
}

/// Pausing a channel has the player of each of its sounds paused, whatever the state before and
/// whatever else is to be done to it, and resuming it has each set going again. Nothing else changes.
pub proof fn law_pause_and_resume_reach_every_sound(
    m: AudioModel,
    channel: ChannelId,
    tween: Option<AudioTween>,
    id: u64,
)
    ensures
        ({
            let p = after_command(m, AudioCommand::Pause(channel, tween));
            let r = after_command(m, AudioCommand::Resume(channel, tween));
            let before = noted(m, id);
            &&& is_on(m, id, channel) ==> notes(p, id, (before.0, before.1, Some(true)))
            &&& is_on(m, id, channel) ==> notes(r, id, (before.0, before.1, Some(false)))
            &&& !is_on(m, id, channel) ==> same_notes(p, m, id) && same_notes(r, m, id)
            &&& same_books(p, m)
            &&& same_books(r, m)
        }),
{
}

/// Setting the volume of a channel has the player of each of its sounds set to it, and the volume is
/// put on record. Nothing else changes, and no other sound.
pub proof fn law_volume_reaches_every_sound(
    m: AudioModel,
    channel: ChannelId,
    level: Level,
    tween: Option<AudioTween>,
    id: u64,
)
    ensures
        ({
            let a = after_command(m, AudioCommand::SetVolume(channel, level, tween));
            let before = noted(m, id);
            &&& is_on(m, id, channel) ==> {
                &&& notes(a, id, (Some(level), before.1, before.2))
                &&& a.volumes.contains_key(id)
                &&& a.volumes[id] == level
            }
            &&& !is_on(m, id, channel) ==> {
                &&& same_notes(a, m, id)
                &&& a.volumes.contains_key(id) == m.volumes.contains_key(id)
                &&& a.volumes.contains_key(id) ==> a.volumes[id] == m.volumes[id]
            }
            &&& a.playing == m.playing
            &&& a.channel_of == m.channel_of
            &&& a.tweens == m.tweens
            &&& a.stops == m.stops
        }),
{
}

/// Setting the pitch of a channel has the player of each of its sounds set to it. Nothing else
/// changes, and no other sound.
pub proof fn law_pitch_reaches_every_sound(
    m: AudioModel,
    channel: ChannelId,
    level: Level,
    tween: Option<AudioTween>,
    id: u64,
)
    ensures
        ({
            let a = after_command(m, AudioCommand::SetPitch(channel, level, tween));
            let before = noted(m, id);
            &&& is_on(m, id, channel) ==> notes(a, id, (before.0, Some(level), before.2))
            &&& !is_on(m, id, channel) ==> same_notes(a, m, id)
            &&& same_books(a, m)
        }),
{
}

/// Setting the panning of a channel changes nothing, and neither does a command to play a sound that
/// is not played yet.
pub proof fn law_panning_changes_nothing(
    m: AudioModel,
    channel: ChannelId,
    level: Level,
    tween: Option<AudioTween>,
    play: PlayCommand,
)
    ensures
        after_command(m, AudioCommand::SetPanning(channel, level, tween)) == m,
        after_command(m, AudioCommand::Play(play)) == m,
{
}

/// Whether a sound was stopped at once: it has no player, no channel, no volume and nothing to be done
/// any more, and its player is listed once more to be stopped.
pub open spec fn is_stopped(m: AudioModel, a: AudioModel, id: u64) -> bool {
    &&& !a.playing.contains_key(id)
    &&& !a.channel_of.contains_key(id)
    &&& !a.volumes.contains_key(id)
    &&& !a.ops.contains_key(id)
    &&& a.stops.count((SoundId(id), m.playing[id])) == m.stops.count(
        (SoundId(id), m.playing[id]),
    ) + 1
}

/// Whether a sound was left as it was, and no player is listed for it that was not.
pub open spec fn is_left_alone(m: AudioModel, a: AudioModel, id: u64) -> bool {
    &&& a.playing.contains_key(id) == m.playing.contains_key(id)
    &&& a.playing.contains_key(id) ==> a.playing[id] == m.playing[id]
    &&& a.channel_of.contains_key(id) == m.channel_of.contains_key(id)
    &&& a.channel_of.contains_key(id) ==> a.channel_of[id] == m.channel_of[id]
    &&& a.volumes.contains_key(id) == m.volumes.contains_key(id)
    &&& a.volumes.contains_key(id) ==> a.volumes[id] == m.volumes[id]
    &&& same_notes(a, m, id)
    &&& forall|player: GodotNodeHandle| #[trigger]
        a.stops.count((SoundId(id), player)) == m.stops.count((SoundId(id), player))
}

/// Stopping sounds stops each of them that is playing at once, and leaves every other as it is.
/// Gradual changes stay on record.
pub proof fn law_stops_end_just_those_sounds(m: AudioModel, ids: Set<u64>, id: u64)
    requires
        m.playing.dom().finite(),
    ensures
        ids.contains(id) && m.playing.contains_key(id) ==> is_stopped(m, after_stops(m, ids), id),
        !(ids.contains(id) && m.playing.contains_key(id)) ==> is_left_alone(
            m,
            after_stops(m, ids),
            id,
        ),
        after_stops(m, ids).tweens == m.tweens,
{
    let gone = ids.intersect(m.playing.dom());
    assert forall|player: GodotNodeHandle| #[trigger]
        after_stops(m, ids).stops.count((SoundId(id), player)) == m.stops.count(
            (SoundId(id), player),
        ) + (if gone.contains(id) && m.playing[id] == player {
            1int
        } else {
            0
        }) by {
        lemma_players_count(m.playing, gone, (SoundId(id), player));
    }
}

/// Stopping a channel without a fade-out stops each of its sounds that is playing at once, and leaves
/// every other as it is. Gradual changes stay on record.
pub proof fn law_stop_ends_every_sound(m: AudioModel, channel: ChannelId, id: u64)
    requires
        m.playing.dom().finite(),
    ensures
        ({
            let a = after_command(m, AudioCommand::Stop(channel, None));
            &&& is_on(m, id, channel) && m.playing.contains_key(id) ==> is_stopped(m, a, id)
            &&& !(is_on(m, id, channel) && m.playing.contains_key(id)) ==> is_left_alone(m, a, id)
            &&& a.tweens == m.tweens
        }),
{
    law_stops_end_just_those_sounds(m, sounds_of(m.channel_of, channel@), id);
}

/// Stopping one sound stops it at once, if it is playing, whatever fade-out is asked for, and leaves
/// every other as it is.
pub proof fn law_stop_sound_ends_that_sound(
    m: AudioModel,
    sound: SoundId,
    tween: Option<AudioTween>,
    id: u64,
)
    requires
        m.playing.dom().finite(),
    ensures
        ({
            let a = after_command(m, AudioCommand::StopSound(sound, tween));
            &&& id == sound.0 && m.playing.contains_key(id) ==> is_stopped(m, a, id)
            &&& !(id == sound.0 && m.playing.contains_key(id)) ==> is_left_alone(m, a, id)
            &&& a.tweens == m.tweens
        }),
{
    law_stops_end_just_those_sounds(m, set![sound.0], id);
}

/// Stopping a channel with a fade-out puts on record, for each of its sounds, that it fades out from
/// the volume that it has, or from full volume if none is on record, from the next frame on. It
/// replaces any gradual change that the sound had. Nothing else changes, and no other sound.
pub proof fn law_fade_out_begins_at_the_volume(
    m: AudioModel,
    channel: ChannelId,
    tween: AudioTween,
    id: u64,
)
    ensures
        ({
            let a = after_command(m, AudioCommand::Stop(channel, Some(tween)));
            let from = if m.volumes.contains_key(id) {
                m.volumes[id]
            } else {
                Level { bits: 0x3f80_0000 }
            };
            &&& is_on(m, id, channel) ==> {
                &&& a.tweens.contains_key(id)
                &&& a.tweens[id].request == (TweenRequest::FadeOut { from, tween })
                &&& !a.tweens[id].started
            }
            &&& !is_on(m, id, channel) ==> {
                &&& a.tweens.contains_key(id) == m.tweens.contains_key(id)
                &&& a.tweens.contains_key(id) ==> a.tweens[id] == m.tweens[id]
            }
            &&& a.playing == m.playing
            &&& a.channel_of == m.channel_of
            &&& a.volumes == m.volumes
            &&& a.ops == m.ops
            &&& a.stops == m.stops
        }),
{
}

/// Full volume is 1.0 and silence is 0.0, in the single-precision form.
pub proof fn law_levels_are_what_they_say()
    ensures
        unchanged().bits == 0x3f80_0000,
        silent().bits == 0,
{
}

/// Commands are settled one after the other, in their order: settling some and after them others comes to
/// the same as settling them all.
pub proof fn law_commands_are_settled_in_order(
    m: AudioModel,
    first: Seq<AudioCommand>,
    rest: Seq<AudioCommand>,
    command: AudioCommand,
)
    ensures
        after_commands(m, Seq::empty()) == m,
        after_commands(m, seq![command]) == after_command(m, command),
        after_commands(m, first + rest) == after_commands(after_commands(m, first), rest),
    decreases rest.len(),
{
    assert(seq![command].drop_last() =~= Seq::empty());
    if rest.len() == 0 {
        assert(first + rest =~= first);
    } else {
        law_commands_are_settled_in_order(m, first, rest.drop_last(), command);
        assert((first + rest).drop_last() =~= first + rest.drop_last());
    }
}

/// The queue is settled up to its first command to play a sound: none before that one is such a
/// command, and the rest of the queue stands behind it, with nothing lost. Without such a command the
/// whole queue is settled.
pub proof fn law_queue_is_cut_at_the_first_play(queue: Seq<AudioCommand>)
    ensures
        forall|i: int| 0 <= i < before_play(queue) ==> !((#[trigger] queue[i]) is Play),
        match first_play(queue) {
            Some(play) => queue == queue.take(before_play(queue) as int) + seq![
                AudioCommand::Play(play),
            ] + behind_play(queue),
            None => before_play(queue) == queue.len() && behind_play(queue).len() == 0 && forall|
                i: int,
            |
                0 <= i < queue.len() ==> !((#[trigger] queue[i]) is Play),
        },
{
    lemma_before_play(queue);
    if let Some(play) = first_play(queue) {
        let n = before_play(queue) as int;
        assert(queue[n] == AudioCommand::Play(play));
        assert(queue =~= queue.take(n) + seq![AudioCommand::Play(play)] + behind_play(queue));
    }
}

/// Players to stop are listed in the order of the commands: the list after commands begins with the
/// list before them, and after some of the commands with a list of what these stop.
pub proof fn law_listed_in_order_of_commands(
    stops: Seq<(SoundId, GodotNodeHandle)>,
    m: AudioModel,
    commands: Seq<AudioCommand>,
    listed: Seq<(SoundId, GodotNodeHandle)>,
    k: int,
)
    requires
        listed_in_order(stops, m, commands, listed),
        m.stops == stops.to_multiset(),
        0 <= k <= commands.len(),
    ensures
        stops.is_prefix_of(listed),
        listed.to_multiset() == after_commands(m, commands).stops,
        exists|n: int|
            0 <= n <= listed.len() && (#[trigger] listed.take(n)).to_multiset() == after_commands(
                m,
                commands.take(k),
            ).stops,
    decreases commands.len(),
{
    if commands.len() == 0 {
        assert(commands.take(k) =~= commands);
        assert(listed.take(listed.len() as int) =~= listed);
    } else if k == commands.len() {
        let n = choose|n: int|
            0 <= n <= listed.len() && listed_in_order(
                stops,
                m,
                commands.drop_last(),
                #[trigger] listed.take(n),
            );
        law_listed_in_order_of_commands(stops, m, commands.drop_last(), listed.take(n), 0);
        assert(stops =~= listed.take(stops.len() as int));
        assert(commands.take(k) =~= commands);
        assert(listed.take(listed.len() as int) =~= listed);
    } else {
        let n = choose|n: int|
            0 <= n <= listed.len() && listed_in_order(
                stops,
                m,
                commands.drop_last(),
                #[trigger] listed.take(n),
            );
        law_listed_in_order_of_commands(stops, m, commands.drop_last(), listed.take(n), k);
        assert(stops =~= listed.take(stops.len() as int));
        assert(commands.drop_last().take(k) =~= commands.take(k));
        let i = choose|i: int|
            0 <= i <= listed.take(n).len() && (#[trigger] listed.take(n).take(i)).to_multiset()
                == after_commands(m, commands.take(k)).stops;
        assert(listed.take(n).take(i) =~= listed.take(i));
    }
}

/// A change to what is to be done to the players goes to each of the sounds it is for, whatever was
/// noted for it, replaces what was noted of its kind, and touches nothing else.
pub proof fn law_patch_goes_to_each_sound(
    ops: Map<u64, PendingSoundOps>,
    ids: Set<u64>,
    patch: OpsPatch,
    id: u64,
)
    ensures
        ({
            let a = patched_all(ops, ids, patch);
            let before: (Option<Level>, Option<Level>, Option<bool>) = if ops.contains_key(id) {
                (ops[id].volume, ops[id].pitch, ops[id].paused)
            } else {
                (None, None, None)
            };
            &&& ids.contains(id) ==> a.contains_key(id) && match patch {
                OpsPatch::Volume(level) => a[id].volume == Some(level) && a[id].pitch == before.1
                    && a[id].paused == before.2,
                OpsPatch::Pitch(level) => a[id].volume == before.0 && a[id].pitch == Some(level)
                    && a[id].paused == before.2,
                OpsPatch::Paused(paused) => a[id].volume == before.0 && a[id].pitch == before.1
                    && a[id].paused == Some(paused),
            }
            &&& !ids.contains(id) ==> a.contains_key(id) == ops.contains_key(id)
            &&& !ids.contains(id) && a.contains_key(id) ==> a[id] == ops[id]
        }),
{
}

/// Whether two states say the same of a sound in all respects that a reading can change.
pub open spec fn same_reading_state(a: AudioModel, b: AudioModel, id: u64) -> bool {
    &&& a.tweens.contains_key(id) == b.tweens.contains_key(id)
    &&& a.tweens.contains_key(id) ==> a.tweens[id] == b.tweens[id]
    &&& a.volumes.contains_key(id) == b.volumes.contains_key(id)
    &&& a.volumes.contains_key(id) ==> a.volumes[id] == b.volumes[id]
    &&& same_notes(a, b, id)
}

/// What a reading of its gradual change makes of a sound: one that is playing takes the value, as its
/// volume where the change is a fade and as its pitch where it is one of the pitch; a change that is
/// complete is off the record, and one that is not stays on it as it is, under way.
pub open spec fn is_moved_on(
    m: AudioModel,
    a: AudioModel,
    id: u64,
    value: Level,
    complete: bool,
) -> bool {
    let request = m.tweens[id].request;
    let before = noted(m, id);
    &&& a.tweens.contains_key(id) == !complete
    &&& !complete ==> a.tweens[id].request == request && a.tweens[id].started
    &&& m.playing.contains_key(id) && !(request is Pitch) ==> {
        &&& notes(a, id, (Some(value), before.1, before.2))
        &&& a.volumes.contains_key(id)
        &&& a.volumes[id] == value
    }
    &&& m.playing.contains_key(id) && request is Pitch ==> {
        &&& notes(a, id, (before.0, Some(value), before.2))
        &&& a.volumes.contains_key(id) == m.volumes.contains_key(id)
        &&& a.volumes.contains_key(id) ==> a.volumes[id] == m.volumes[id]
    }
    &&& !m.playing.contains_key(id) ==> {
        &&& same_notes(a, m, id)
        &&& a.volumes.contains_key(id) == m.volumes.contains_key(id)
        &&& a.volumes.contains_key(id) ==> a.volumes[id] == m.volumes[id]
    }
}

/// A reading moves the gradual change of its sound on, if one is on record, and changes no other
/// sound. It neither starts nor ends a sound.
pub proof fn law_reading_moves_its_sound_on(m: AudioModel, reading: TweenReading, id: u64)
    ensures
        ({
            let a = after_reading(m, reading);
            &&& id == reading.sound_id.0 && m.tweens.contains_key(id) ==> is_moved_on(
                m,
                a,
                id,
                reading.value,
                reading.complete,
            )
            &&& id != reading.sound_id.0 || !m.tweens.contains_key(id) ==> same_reading_state(
                a,
                m,
                id,
            )
            &&& a.playing == m.playing
            &&& a.channel_of == m.channel_of
            &&& a.stops == m.stops
        }),
{
}

/// Readings are taken one after the other, in their order.
pub proof fn law_readings_are_taken_in_order(
    m: AudioModel,
    first: Seq<TweenReading>,
    rest: Seq<TweenReading>,
    reading: TweenReading,
)
    ensures
        after_readings(m, Seq::empty()) == m,
        after_readings(m, seq![reading]) == after_reading(m, reading),
        after_readings(m, first + rest) == after_readings(after_readings(m, first), rest),
    decreases rest.len(),
{
    assert(seq![reading].drop_last() =~= Seq::empty());
    if rest.len() == 0 {
        assert(first + rest =~= first);
    } else {
        law_readings_are_taken_in_order(m, first, rest.drop_last(), reading);
        assert((first + rest).drop_last() =~= first + rest.drop_last());
    }
}

proof fn lemma_unread_sound_stays(m: AudioModel, readings: Seq<TweenReading>, id: u64)
    requires
        forall|i: int| 0 <= i < readings.len() ==> (#[trigger] readings[i]).sound_id.0 != id,
    ensures
        same_reading_state(after_readings(m, readings), m, id),
        after_readings(m, readings).playing == m.playing,
        after_readings(m, readings).channel_of == m.channel_of,
        after_readings(m, readings).stops == m.stops,
    decreases readings.len(),
{
    if readings.len() > 0 {
        lemma_unread_sound_stays(m, readings.drop_last(), id);
        assert(readings[readings.len() - 1].sound_id.0 != id);
    }
}

proof fn lemma_read_sound_moves_on(
    m: AudioModel,
    readings: Seq<TweenReading>,
    at: int,
)
    requires
        0 <= at < readings.len(),
        m.tweens.contains_key(readings[at].sound_id.0),
        forall|i: int|
            0 <= i < readings.len() && i != at ==> (#[trigger] readings[i]).sound_id
                != readings[at].sound_id,
    ensures
        is_moved_on(
            m,
            after_readings(m, readings),
            readings[at].sound_id.0,
            readings[at].value,
            readings[at].complete,
        ),
        after_readings(m, readings).playing == m.playing,
        after_readings(m, readings).channel_of == m.channel_of,
        after_readings(m, readings).stops == m.stops,
    decreases readings.len(),
{
    let id = readings[at].sound_id.0;
    let done = readings.drop_last();
    if at == readings.len() - 1 {
        assert forall|i: int| 0 <= i < done.len() implies (#[trigger] done[i]).sound_id.0 != id by {
            assert(readings[i].sound_id != readings[at].sound_id);
        }
        lemma_unread_sound_stays(m, done, id);
    } else {
        assert(done[at] == readings[at]);
        assert forall|i: int| 0 <= i < done.len() && i != at implies (
        #[trigger] done[i]).sound_id != done[at].sound_id by {
            assert(readings[i].sound_id != readings[at].sound_id);
        }
        lemma_read_sound_moves_on(m, done, at);
        assert(readings[readings.len() - 1].sound_id != readings[at].sound_id);
    }
}

/// What the readings of a frame, one for each sound at most, make of a sound that plays on: its change
/// is moved on. A sound whose fade-out is complete is stopped in that same frame.
pub proof fn law_frame_moves_every_change_on(
    m: AudioModel,
    readings: Seq<TweenReading>,
    at: int,
)
    requires
        m.playing.dom().finite(),
        0 <= at < readings.len(),
        m.tweens.contains_key(readings[at].sound_id.0),
        forall|i: int|
            0 <= i < readings.len() && i != at ==> (#[trigger] readings[i]).sound_id
                != readings[at].sound_id,
    ensures
        ({
            let id = readings[at].sound_id.0;
            let a = after_tweens(m, readings);
            let ends = m.tweens[id].request is FadeOut && readings[at].complete;
            &&& !ends ==> is_moved_on(m, a, id, readings[at].value, readings[at].complete)
            &&& !ends ==> a.playing.contains_key(id) == m.playing.contains_key(id)
            &&& !ends && a.playing.contains_key(id) ==> a.playing[id] == m.playing[id]
            &&& ends && m.playing.contains_key(id) ==> is_stopped(m, a, id)
            &&& ends ==> !a.tweens.contains_key(id)
        }),
{
    let id = readings[at].sound_id.0;
    let b = after_readings(m, readings);
    lemma_read_sound_moves_on(m, readings, at);
    law_stops_end_just_those_sounds(b, faded_out(m.tweens, readings), id);
    if is_complete(readings, id) {
        let k = choose|k: int|
            0 <= k < readings.len() && (#[trigger] readings[k]).sound_id.0 == id
                && readings[k].complete;
        assert(k == at);
    }
}

proof fn lemma_readings_end_nothing(m: AudioModel, readings: Seq<TweenReading>)
    ensures
        after_readings(m, readings).playing == m.playing,
        after_readings(m, readings).channel_of == m.channel_of,
        after_readings(m, readings).stops == m.stops,
    decreases readings.len(),
{
    if readings.len() > 0 {
        lemma_readings_end_nothing(m, readings.drop_last());
    }
}

/// Whatever is read, a sound that is playing is stopped just when it is on record as fading out and
/// one of the readings says that its change is complete.
pub proof fn law_sound_ends_when_it_has_faded_out(
    m: AudioModel,
    readings: Seq<TweenReading>,
    id: u64,
)
    requires
        m.playing.dom().finite(),
        m.playing.contains_key(id),
    ensures
        ({
            let a = after_tweens(m, readings);
            let ends = m.tweens.contains_key(id) && m.tweens[id].request is FadeOut && exists|
                i: int,
            |
                0 <= i < readings.len() && (#[trigger] readings[i]).sound_id.0 == id
                    && readings[i].complete;
            &&& ends ==> is_stopped(m, a, id)
            &&& !ends ==> {
                &&& a.playing.contains_key(id) && a.playing[id] == m.playing[id]
                &&& a.channel_of.contains_key(id) == m.channel_of.contains_key(id)
                &&& a.channel_of.contains_key(id) ==> a.channel_of[id] == m.channel_of[id]
                &&& a.stops.count((SoundId(id), m.playing[id])) == m.stops.count(
                    (SoundId(id), m.playing[id]),
                )
            }
        }),
{
    lemma_readings_end_nothing(m, readings);
    law_stops_end_just_those_sounds(
        after_readings(m, readings),
        faded_out(m.tweens, readings),
        id,
    );
}

/// A sound that nothing is read of is left as it is by the readings
/// of a frame.
pub proof fn law_unread_sound_is_left_alone(m: AudioModel, readings: Seq<TweenReading>, id: u64)
    requires
        m.playing.dom().finite(),
        forall|i: int| 0 <= i < readings.len() ==> (#[trigger] readings[i]).sound_id.0 != id,
    ensures
        is_left_alone(m, after_tweens(m, readings), id),
        same_reading_state(after_tweens(m, readings), m, id),
{
    lemma_unread_sound_stays(m, readings, id);
    law_stops_end_just_those_sounds(after_readings(m, readings), faded_out(m.tweens, readings), id);
}

/// A change is one of the volume, of the pitch, or one that ends the sound, by what was asked for.
pub proof fn law_request_tells_the_kind(request: TweenRequest)
    ensures
        request is FadeIn <==> request.kind() == TweenType::Volume,
        request is FadeOut <==> request.kind() == TweenType::FadeOut,
        request is Pitch <==> request.kind() == TweenType::Pitch,
{
}

/// What is to be done to a player is done by one call for each thing that is noted, and by no other:
/// first the volume, next the pitch, last the pause. A sound of which nothing is noted needs no call.
pub proof fn law_each_note_is_one_call(ops: Map<u64, PendingSoundOps>, id: u64)
    ensures
        ({
            let calls = calls_of(ops_of(ops, id));
            let has = ops.contains_key(id);
            let v = has && ops[id].volume is Some;
            let p = has && ops[id].pitch is Some;
            let s = has && ops[id].paused is Some;
            let n = (if v {
                1int
            } else {
                0
            }) + (if p {
                1int
            } else {
                0
            }) + (if s {
                1int
            } else {
                0
            });
            &&& calls.len() == n
            &&& v ==> calls[0] == PlayerCall::SetVolume(ops[id].volume->Some_0)
            &&& p ==> calls[if v {
                1int
            } else {
                0
            }] == PlayerCall::SetPitch(ops[id].pitch->Some_0)
            &&& s ==> calls[n - 1] == PlayerCall::SetPaused(ops[id].paused->Some_0)
        }),
{
}

/// A sound plays on as long as its player is there and says so; it came to its end if the player says
/// that it does not play; it is lost if the player is gone.
pub proof fn law_player_tells_the_fate(player_is_playing: Option<bool>)
    ensures
        fate(player_is_playing) == SoundFate::Stays <==> player_is_playing == Some(true),
        fate(player_is_playing) == SoundFate::Ends <==> player_is_playing == Some(false),
        fate(player_is_playing) == SoundFate::Lost <==> player_is_playing is None,
{
}

/// At the end of a frame a sound that does not stay is forgotten in every respect, and one of which
/// nothing else is said than that it stays is left as it is.
pub proof fn law_sound_that_ends_is_forgotten(
    m: AudioModel,
    fates: Seq<(SoundId, SoundFate)>,
    id: u64,
)
    ensures
        ({
            let a = after_retired(m, leaving(fates));
            let ends = exists|i: int|
                0 <= i < fates.len() && (#[trigger] fates[i]).0.0 == id && fates[i].1
                    != SoundFate::Stays;
            &&& ends ==> {
                &&& !a.playing.contains_key(id)
                &&& !a.channel_of.contains_key(id)
                &&& !a.tweens.contains_key(id)
                &&& !a.volumes.contains_key(id)
            }
            &&& !ends ==> {
                &&& a.playing.contains_key(id) == m.playing.contains_key(id)
                &&& a.playing.contains_key(id) ==> a.playing[id] == m.playing[id]
                &&& a.channel_of.contains_key(id) == m.channel_of.contains_key(id)
                &&& a.channel_of.contains_key(id) ==> a.channel_of[id] == m.channel_of[id]
                &&& a.tweens.contains_key(id) == m.tweens.contains_key(id)
                &&& a.tweens.contains_key(id) ==> a.tweens[id] == m.tweens[id]
                &&& a.volumes.contains_key(id) == m.volumes.contains_key(id)
                &&& a.volumes.contains_key(id) ==> a.volumes[id] == m.volumes[id]
            }
            &&& a.ops == m.ops
            &&& a.stops == m.stops
        }),
{
    let gone = leaving(fates);
    if exists|i: int|
        0 <= i < fates.len() && (#[trigger] fates[i]).0.0 == id && fates[i].1 != SoundFate::Stays {
        assert(gone.contains(id));
    } else if gone.contains(id) {
        let i = choose|i: int|
            0 <= i < fates.len() && (#[trigger] fates[i]).0.0 == id && !(fates[i].1 is Stays);
        assert(fates[i].1 != SoundFate::Stays);
    }
}

/// A sound that begins to play is on record with its player and on its channel. With a fade-in it
/// starts in silence and is to come up to its volume, from the next frame on; without one it starts at
/// its volume, and no gradual change is begun. No other sound changes, and nothing is noted for a
/// player.
pub proof fn law_played_sound_is_on_record(
    m: AudioModel,
    play: PlayCommand,
    player: GodotNodeHandle,
    id: u64,
)
    ensures
        ({
            let a = after_play(m, play, player);
            let own = play.sound_id.0;
            &&& a.playing.contains_key(own) && a.playing[own] == player
            &&& a.channel_of.contains_key(own) && a.channel_of[own] == play.channel_id
            &&& a.volumes.contains_key(own)
            &&& match play.settings.fade_in {
                Some(tween) => {
                    &&& a.volumes[own].bits == 0
                    &&& a.tweens.contains_key(own)
                    &&& a.tweens[own].request == (TweenRequest::FadeIn {
                        target: play.settings.volume,
                        tween,
                    })
                    &&& !a.tweens[own].started
                },
                None => a.volumes[own] == play.settings.volume && a.tweens == m.tweens,
            }
            &&& id != own ==> {
                &&& a.playing.contains_key(id) == m.playing.contains_key(id)
                &&& a.playing.contains_key(id) ==> a.playing[id] == m.playing[id]
                &&& a.channel_of.contains_key(id) == m.channel_of.contains_key(id)
                &&& a.channel_of.contains_key(id) ==> a.channel_of[id] == m.channel_of[id]
                &&& same_reading_state(a, m, id)
            }
            &&& a.ops == m.ops
            &&& a.stops == m.stops
        }),
{
}

/// A stream loops just when it is to and can: by its flag, or by its mode, by the kind of stream.
pub proof fn law_stream_loops_if_it_is_to(kind: StreamKind, looping: bool)
    ensures
        loop_setup(kind, looping) == LoopSetup::Leave <==> !looping,
        loop_setup(kind, looping) == LoopSetup::SetLoop <==> looping && kind
            == StreamKind::OggVorbis,
        loop_setup(kind, looping) == LoopSetup::LoopForward <==> looping && kind
            == StreamKind::Wav,
        loop_setup(kind, looping) == LoopSetup::Unsupported <==> looping && kind
            == StreamKind::Other,
{
}

/// How the player of a sound is brought to play. It gets its stream, the volume at which the sound
/// starts (silence, if it fades in) and the pitch. A sound with a place gets a player of that kind,
/// which is put there; one without gets a plain one, and the master bus if it has a panning. Last it
/// is put below the root, if there is one, and started.
pub proof fn law_player_is_set_up(
    player_type: AudioPlayerType,
    settings: AudioSettings,
    has_root: bool,
)
    ensures
        ({
            let steps = setup(player_type, settings) + starting(has_root);
            let placed = match player_type {
                AudioPlayerType::NonPositional => settings.panning is Some,
                _ => true,
            };
            let n = 4 + (if placed {
                1int
            } else {
                0
            }) + (if has_root {
                1int
            } else {
                0
            });
            &&& steps.len() == n
            &&& steps[0] == PlayerStep::Stream
            &&& settings.fade_in is Some ==> steps[1] == PlayerStep::Volume(Level { bits: 0 })
            &&& settings.fade_in is None ==> steps[1] == PlayerStep::Volume(settings.volume)
            &&& steps[2] == PlayerStep::Pitch(settings.pitch)
            &&& match player_type {
                AudioPlayerType::NonPositional => kind_of(player_type) == PlayerKind::Plain && (
                settings.panning is Some ==> steps[3] == PlayerStep::MasterBus),
                AudioPlayerType::Spatial2D { x, y } => kind_of(player_type) == PlayerKind::Spatial2D
                    && steps[3] == (PlayerStep::Position2D { x, y }),
                AudioPlayerType::Spatial3D { x, y, z } => kind_of(player_type)
                    == PlayerKind::Spatial3D && steps[3] == (PlayerStep::Position3D { x, y, z }),
            }
            &&& has_root ==> steps[n - 2] == PlayerStep::AddToRoot
            &&& steps[n - 1] == PlayerStep::Play
        }),
        MASTER_BUS@ == "Master"@,
        settings.fade_in is Some ==> first_volume(settings).bits == 0,
        settings.fade_in is None ==> first_volume(settings) == settings.volume,
{
}

/// The commands of a frame, as far as they go: those before the first one to play a sound are settled,
/// and for that one a player is asked for; if there is none, the frame goes on to the gradual changes,
/// with no command left.
pub proof fn law_frame_settles_its_commands(
    queue: Seq<AudioCommand>,
    m: AudioModel,
    stops: Seq<(SoundId, GodotNodeHandle)>,
    next_stage: Stage,
    next_queue: Seq<AudioCommand>,
    next: AudioModel,
    next_stops: Seq<(SoundId, GodotNodeHandle)>,
    action: FrameAction,
)
    requires
        stepped(
            Stage::Commands,
            FrameEvent::Begin,
            queue,
            m,
            stops,
            next_stage,
            next_queue,
            next,
            next_stops,
            action,
        ),
    ensures
        exists|n: int|
            {
                &&& 0 <= n <= queue.len()
                &&& forall|i: int| 0 <= i < n ==> !((#[trigger] queue[i]) is Play)
                &&& next == after_commands(m, #[trigger] queue.take(n))
                &&& n < queue.len() ==> {
                    &&& queue[n] matches AudioCommand::Play(play)
                    &&& next_stage == Stage::Player(play)
                    &&& action == FrameAction::CreatePlayer(play)
                    &&& next_queue == queue.skip(n + 1)
                }
                &&& n == queue.len() ==> next_stage is Tweens && action is ReadTweens
                    && next_queue.len() == 0
            },
{
    lemma_before_play(queue);
    let n = before_play(queue) as int;
    assert(next == after_commands(m, queue.take(n)));
}

/// A frame that got the player it asked for takes the sound on record and settles the commands that
/// are left, as before; one that got none puts the command back at the head of the queue, changes
/// nothing, and goes on to the gradual changes.
pub proof fn law_frame_takes_its_player(
    play: PlayCommand,
    player: Option<GodotNodeHandle>,
    queue: Seq<AudioCommand>,
    m: AudioModel,
    stops: Seq<(SoundId, GodotNodeHandle)>,
    next_stage: Stage,
    next_queue: Seq<AudioCommand>,
    next: AudioModel,
    next_stops: Seq<(SoundId, GodotNodeHandle)>,
    action: FrameAction,
)
    requires
        stepped(
            Stage::Player(play),
            FrameEvent::Player(player),
            queue,
            m,
            stops,
            next_stage,
            next_queue,
            next,
            next_stops,
            action,
        ),
    ensures
        match player {
            Some(player) => stepped(
                Stage::Commands,
                FrameEvent::Begin,
                queue,
                after_play(m, play, player),
                stops,
                next_stage,
                next_queue,
                next,
                next_stops,
                action,
            ),
            None => {
                &&& next == m
                &&& next_stops == stops
                &&& next_queue.len() == queue.len() + 1
                &&& next_queue[0] == AudioCommand::Play(play)
                &&& next_queue.skip(1) == queue
                &&& next_stage is Tweens
                &&& action is ReadTweens
            },
        },
{
    if player is None {
        assert(next_queue.skip(1) =~= queue);
    }
}

/// The gradual changes that the host is asked to read are all that are on record, each once.
pub proof fn law_frame_reads_every_change(
    stage: Stage,
    event: FrameEvent,
    queue: Seq<AudioCommand>,
    m: AudioModel,
    stops: Seq<(SoundId, GodotNodeHandle)>,
    next_stage: Stage,
    next_queue: Seq<AudioCommand>,
    next: AudioModel,
    next_stops: Seq<(SoundId, GodotNodeHandle)>,
    action: FrameAction,
    id: u64,
)
    requires
        stepped(
            stage,
            event,
            queue,
            m,
            stops,
            next_stage,
            next_queue,
            next,
            next_stops,
            action,
        ),
    ensures
        action is ReadTweens <==> next_stage is Tweens,
        action matches FrameAction::ReadTweens(list) ==> {
            &&& list@.no_duplicates()
            &&& forall|tween: ActiveTween| #[trigger]
                list@.contains((SoundId(id), tween)) <==> next.tweens.contains_key(id)
                    && next.tweens[id] == tween
        },
{
}

/// Once the changes were read they are moved on, and every player that is to be stopped is handed over
/// to be stopped: those that were listed, in their order, and those that have faded out now. Then none
/// is left, and no command is touched.
pub proof fn law_frame_stops_every_player(
    readings: Vec<TweenReading>,
    queue: Seq<AudioCommand>,
    m: AudioModel,
    stops: Seq<(SoundId, GodotNodeHandle)>,
    next_stage: Stage,
    next_queue: Seq<AudioCommand>,
    next: AudioModel,
    next_stops: Seq<(SoundId, GodotNodeHandle)>,
    action: FrameAction,
)
    requires
        stepped(
            Stage::Tweens,
            FrameEvent::Tweens(readings),
            queue,
            m,
            stops,
            next_stage,
            next_queue,
            next,
            next_stops,
            action,
        ),
    ensures
        next_stage is Stops,
        next_queue == queue,
        next_stops.len() == 0,
        ({
            let moved = after_tweens(m, readings@);
            &&& next.playing == moved.playing
            &&& next.channel_of == moved.channel_of
            &&& next.tweens == moved.tweens
            &&& next.volumes == moved.volumes
            &&& next.ops == moved.ops
            &&& action matches FrameAction::StopPlayers(list)
            &&& stops.is_prefix_of(list@)
            &&& forall|p: (SoundId, GodotNodeHandle)| #[trigger]
                list@.to_multiset().count(p) == moved.stops.count(p)
        }),
{
}

/// After the players were stopped, every sound that is playing is seen to, each once and with its own
/// player: what is noted for it is done, and it is asked whether it still plays.
pub proof fn law_frame_tends_every_player(
    queue: Seq<AudioCommand>,
    m: AudioModel,
    stops: Seq<(SoundId, GodotNodeHandle)>,
    next_stage: Stage,
    next_queue: Seq<AudioCommand>,
    next: AudioModel,
    next_stops: Seq<(SoundId, GodotNodeHandle)>,
    action: FrameAction,
    id: u64,
)
    requires
        stepped(
            Stage::Stops,
            FrameEvent::Stopped,
            queue,
            m,
            stops,
            next_stage,
            next_queue,
            next,
            next_stops,
            action,
        ),
    ensures
        next_stage is Fates,
        next_queue == queue,
        next == m,
        next_stops == stops,
        action matches FrameAction::TendPlayers(tasks) && {
            &&& m.playing.contains_key(id) ==> exists|i: int|
                0 <= i < tasks@.len() && (#[trigger] tasks@[i]).sound_id.0 == id && tasks@[i].player
                    == m.playing[id] && tasks@[i].calls@ == calls_of(ops_of(m.ops, id))
            &&& !m.playing.contains_key(id) ==> forall|i: int|
                0 <= i < tasks@.len() ==> (#[trigger] tasks@[i]).sound_id.0 != id
            &&& forall|i: int, j: int|
                #![trigger tasks@[i], tasks@[j]]
                0 <= i < j < tasks@.len() ==> tasks@[i].sound_id != tasks@[j].sound_id
        },
{
    if let FrameAction::TendPlayers(tasks) = action {
        if m.playing.contains_key(id) {
            let i = choose|i: int| 0 <= i < tasks@.len() && (#[trigger] tasks@[i]).sound_id.0 == id;
            assert(tasks@[i].sound_id.0 == id);
        }
    }
}

/// Last the sounds that do not stay are forgotten, and the frame is over.
pub proof fn law_frame_forgets_what_ended(
    fates: Vec<(SoundId, SoundFate)>,
    queue: Seq<AudioCommand>,
    m: AudioModel,
    stops: Seq<(SoundId, GodotNodeHandle)>,
    next_stage: Stage,
    next_queue: Seq<AudioCommand>,
    next: AudioModel,
    next_stops: Seq<(SoundId, GodotNodeHandle)>,
    action: FrameAction,
    id: u64,
)
    requires
        stepped(
            Stage::Fates,
            FrameEvent::Fates(fates),
            queue,
            m,
            stops,
            next_stage,
            next_queue,
            next,
            next_stops,
            action,
        ),
    ensures
        next_stage is Over,
        action is Done,
        next_queue == queue,
        next.playing.contains_key(id) <==> m.playing.contains_key(id) && forall|i: int|
            0 <= i < fates@.len() && (#[trigger] fates@[i]).0.0 == id ==> fates@[i].1
                == SoundFate::Stays,
        next.playing.contains_key(id) ==> next.playing[id] == m.playing[id],
{
    law_sound_that_ends_is_forgotten(m, fates@, id);
}

} // verus!
