//! What one frame does to the sounds: it settles the commands that wait, moves the gradual changes
//! on, and forgets the sounds that came to their end.

use vstd::prelude::*;

use crate::audio::channels::GodotAudioChannels;
use crate::audio::output::{
    after_stops, collect_channel_sound_ids, keys_of, lemma_take_to_set, model, ops_of,
    patch_all_ops, patch_ops, patched_all, schedule_stop_sound, sounds_of, stop_all, AudioModel, AudioOutput,
    OpsPatch, PendingSoundOps, PendingWork,
};
use crate::audio::types::{
    unchanged, ActiveTween, AudioCommand, AudioTween, Level, PlayCommand, SoundId, TweenReading,
    TweenRequest, TweenType,
};
use crate::ids::GodotNodeHandle;

verus! {

broadcast use vstd::std_specs::hash::group_hash_axioms;

// ---------------------------------------------------------------------------------------------
// Commands
// ---------------------------------------------------------------------------------------------
/// The volume of a sound; that at which it was recorded, if none is known.
pub open spec fn volume_of(volumes: Map<u64, Level>, id: u64) -> Level {
    if volumes.contains_key(id) {
        volumes[id]
    } else {
        unchanged()
    }
}

/// The gradual changes after a fade-out of the sounds `ids` was begun, each from the volume that it
/// has.
pub open spec fn fading_out(
    tweens: Map<u64, ActiveTween>,
    volumes: Map<u64, Level>,
    ids: Set<u64>,
    tween: AudioTween,
) -> Map<u64, ActiveTween> {
    Map::new(
        |id: u64| tweens.contains_key(id) || ids.contains(id),
        |id: u64|
            if ids.contains(id) {
                ActiveTween {
                    request: TweenRequest::FadeOut { from: volume_of(volumes, id), tween },
                    started: false,
                }
            } else {
                tweens[id]
            },
    )
}

/// The volumes after those of the sounds `ids` were set.
pub open spec fn levelled(volumes: Map<u64, Level>, ids: Set<u64>, level: Level) -> Map<
    u64,
    Level,
> {
    Map::new(
        |id: u64| volumes.contains_key(id) || ids.contains(id),
        |id: u64|
            if ids.contains(id) {
                level
            } else {
                volumes[id]
            },
    )
}

/// The state after a command other than that to play a sound. A channel command goes to the sounds
/// that the channel has at that moment.
pub open spec fn after_command(m: AudioModel, command: AudioCommand) -> AudioModel {
    match command {
        AudioCommand::Play(_) => m,
        AudioCommand::Stop(channel, Some(tween)) => AudioModel {
            tweens: fading_out(m.tweens, m.volumes, sounds_of(m.channel_of, channel@), tween),
            ..m
        },
        AudioCommand::Stop(channel, None) => after_stops(m, sounds_of(m.channel_of, channel@)),
        AudioCommand::Pause(channel, _) => AudioModel {
            ops: patched_all(m.ops, sounds_of(m.channel_of, channel@), OpsPatch::Paused(true)),
            ..m
        },
        AudioCommand::Resume(channel, _) => AudioModel {
            ops: patched_all(m.ops, sounds_of(m.channel_of, channel@), OpsPatch::Paused(false)),
            ..m
        },
        AudioCommand::SetVolume(channel, level, _) => AudioModel {
            volumes: levelled(m.volumes, sounds_of(m.channel_of, channel@), level),
            ops: patched_all(m.ops, sounds_of(m.channel_of, channel@), OpsPatch::Volume(level)),
            ..m
        },
        AudioCommand::SetPitch(channel, level, _) => AudioModel {
            ops: patched_all(m.ops, sounds_of(m.channel_of, channel@), OpsPatch::Pitch(level)),
            ..m
        },
        AudioCommand::SetPanning(_, _, _) => m,
        AudioCommand::StopSound(sound_id, _) => after_stops(m, set![sound_id.0]),
    }
}

/// Begin to fade these sounds out.
fn fade_out_all(output: &mut AudioOutput, ids: &Vec<u64>, tween: AudioTween)
    ensures
        final(output).active_tweens@ == fading_out(
            old(output).active_tweens@,
            old(output).current_volumes@,
            ids@.to_set(),
            tween,
        ),
        final(output).playing_sounds@ == old(output).playing_sounds@,
        final(output).sound_to_channel@ == old(output).sound_to_channel@,
        final(output).current_volumes@ == old(output).current_volumes@,
{
    let ghost before = *output;
    assert(ids@.take(0).to_set() =~= Set::empty());
    assert(output.active_tweens@ =~= fading_out(
        before.active_tweens@,
        before.current_volumes@,
        ids@.take(0).to_set(),
        tween,
    ));
    for i in 0..ids.len()
        invariant
            output.active_tweens@ == fading_out(
                before.active_tweens@,
                before.current_volumes@,
                ids@.take(i as int).to_set(),
                tween,
            ),
            output.playing_sounds@ == before.playing_sounds@,
            output.sound_to_channel@ == before.sound_to_channel@,
            output.current_volumes@ == before.current_volumes@,
    {
        let id: u64 = ids[i];
        let from: Level = match output.current_volumes.get(&id) {
            Some(level) => *level,
            None => Level::full(),
        };
        output.active_tweens.insert(
            id,
            ActiveTween { request: TweenRequest::FadeOut { from, tween }, started: false },
        );
        proof {
            lemma_take_to_set(ids@, i as int);
            assert(output.active_tweens@ =~= fading_out(
                before.active_tweens@,
                before.current_volumes@,
                ids@.take(i + 1).to_set(),
                tween,
            ));
        }
    }
    assert(ids@.take(ids@.len() as int) =~= ids@);
}

/// Set the volumes of these sounds.
fn level_all(output: &mut AudioOutput, ids: &Vec<u64>, level: Level)
    ensures
        final(output).current_volumes@ == levelled(
            old(output).current_volumes@,
            ids@.to_set(),
            level,
        ),
        final(output).playing_sounds@ == old(output).playing_sounds@,
        final(output).sound_to_channel@ == old(output).sound_to_channel@,
        final(output).active_tweens@ == old(output).active_tweens@,
{
    let ghost before = *output;
    assert(ids@.take(0).to_set() =~= Set::empty());
    assert(output.current_volumes@ =~= levelled(
        before.current_volumes@,
        ids@.take(0).to_set(),
        level,
    ));
    for i in 0..ids.len()
        invariant
            output.current_volumes@ == levelled(
                before.current_volumes@,
                ids@.take(i as int).to_set(),
                level,
            ),
            output.playing_sounds@ == before.playing_sounds@,
            output.sound_to_channel@ == before.sound_to_channel@,
            output.active_tweens@ == before.active_tweens@,
    {
        output.current_volumes.insert(ids[i], level);
        proof {
            lemma_take_to_set(ids@, i as int);
            assert(output.current_volumes@ =~= levelled(
                before.current_volumes@,
                ids@.take(i + 1).to_set(),
                level,
            ));
        }
    }
    assert(ids@.take(ids@.len() as int) =~= ids@);
}

/// Settle a command other than that to play a sound.
pub fn settle_command(output: &mut AudioOutput, work: &mut PendingWork, command: AudioCommand)
    ensures
        model(*final(output), *final(work)) == after_command(
            model(*old(output), *old(work)),
            command,
        ),
        old(work).stops@.is_prefix_of(final(work).stops@),
{
    let ghost before = model(*output, *work);
    match command {
        AudioCommand::Play(_) => {},
        AudioCommand::Stop(channel_id, tween) => {
            let ids = collect_channel_sound_ids(output, channel_id);
            match tween {
                Some(tween) => {
                    fade_out_all(output, &ids, tween);
                },
                None => {
                    stop_all(output, work, &ids);
                },
            }
        },
        AudioCommand::Pause(channel_id, _) => {
            let ids = collect_channel_sound_ids(output, channel_id);
            patch_all_ops(&mut work.ops, &ids, OpsPatch::Paused(true));
        },
        AudioCommand::Resume(channel_id, _) => {
            let ids = collect_channel_sound_ids(output, channel_id);
            patch_all_ops(&mut work.ops, &ids, OpsPatch::Paused(false));
        },
        AudioCommand::SetVolume(channel_id, volume, _) => {
            let ids = collect_channel_sound_ids(output, channel_id);
            level_all(output, &ids, volume);
            patch_all_ops(&mut work.ops, &ids, OpsPatch::Volume(volume));
        },
        AudioCommand::SetPitch(channel_id, pitch, _) => {
            let ids = collect_channel_sound_ids(output, channel_id);
            patch_all_ops(&mut work.ops, &ids, OpsPatch::Pitch(pitch));
        },
        AudioCommand::SetPanning(_, _, _) => {},
        AudioCommand::StopSound(sound_id, _) => {
            schedule_stop_sound(output, work, sound_id);
        },
    }
    assert(model(*output, *work) =~= after_command(before, command));
}

/// The state after commands, in their order.
pub open spec fn after_commands(m: AudioModel, commands: Seq<AudioCommand>) -> AudioModel
    decreases commands.len(),
{
    if commands.len() == 0 {
        m
    } else {
        after_command(after_commands(m, commands.drop_last()), commands.last())
    }
}

/// How many commands stand before the first that plays a sound.
pub open spec fn before_play(queue: Seq<AudioCommand>) -> nat
    decreases queue.len(),
{
    if queue.len() == 0 || queue[0] is Play {
        0
    } else {
        1 + before_play(queue.drop_first())
    }
}

/// The first command of the queue that plays a sound.
pub open spec fn first_play(queue: Seq<AudioCommand>) -> Option<PlayCommand> {
    let n = before_play(queue) as int;
    if n < queue.len() {
        Some(queue[n]->Play_0)
    } else {
        None
    }
}

/// What is left of the queue behind the first command that plays a sound.
pub open spec fn behind_play(queue: Seq<AudioCommand>) -> Seq<AudioCommand> {
    let n = before_play(queue) as int;
    if n < queue.len() {
        queue.skip(n + 1)
    } else {
        Seq::empty()
    }
}

/// The commands before the first that plays a sound are those that do not.
pub proof fn lemma_before_play(queue: Seq<AudioCommand>)
    ensures
        before_play(queue) <= queue.len(),
        before_play(queue) < queue.len() ==> queue[before_play(queue) as int] is Play,
        forall|i: int| 0 <= i < before_play(queue) ==> !((#[trigger] queue[i]) is Play),
    decreases queue.len(),
{
    if queue.len() > 0 && !(queue[0] is Play) {
        let rest = queue.drop_first();
        lemma_before_play(rest);
        assert forall|i: int| 0 <= i < before_play(queue) implies !((#[trigger] queue[i]) is Play) by {
            if i > 0 {
                assert(rest[i - 1] == queue[i]);
            }
        }
    }
}

/// The first place in the queue with a command that plays a sound is where the commands before it
/// end.
proof fn lemma_is_before_play(queue: Seq<AudioCommand>, n: int)
    requires
        0 <= n <= queue.len(),
        n < queue.len() ==> queue[n] is Play,
        forall|i: int| 0 <= i < n ==> !((#[trigger] queue[i]) is Play),
    ensures
        before_play(queue) == n,
{
    lemma_before_play(queue);
    let b = before_play(queue) as int;
    if b < n {
        assert(!(queue[b] is Play));
    }
    if n < b {
        assert(!(queue[n] is Play));
    }
}

/// Whether `listed` lists the players to stop in the order of the commands, behind those in `stops`:
/// what a command stops stands behind all that was stopped before it. In which order the sounds of
/// one command stand is open.
pub open spec fn listed_in_order(
    stops: Seq<(SoundId, GodotNodeHandle)>,
    m: AudioModel,
    commands: Seq<AudioCommand>,
    listed: Seq<(SoundId, GodotNodeHandle)>,
) -> bool
    decreases commands.len(),
{
    if commands.len() == 0 {
        listed == stops
    } else {
        &&& listed.to_multiset() == after_commands(m, commands).stops
        &&& exists|k: int|
            0 <= k <= listed.len() && listed_in_order(
                stops,
                m,
                commands.drop_last(),
                #[trigger] listed.take(k),
            )
    }
}

/// Settle the commands that wait up to the first that plays a sound, and hand that one over.
pub fn next_play(
    channels: &mut GodotAudioChannels,
    output: &mut AudioOutput,
    work: &mut PendingWork,
) -> (r: Option<PlayCommand>)
    ensures
        r == first_play(old(channels).command_queue@),
        final(channels).command_queue@ == behind_play(old(channels).command_queue@),
        final(channels).channels@ == old(channels).channels@,
        model(*final(output), *final(work)) == after_commands(
            model(*old(output), *old(work)),
            old(channels).command_queue@.take(before_play(old(channels).command_queue@) as int),
        ),
        listed_in_order(
            old(work).stops@,
            model(*old(output), *old(work)),
            old(channels).command_queue@.take(before_play(old(channels).command_queue@) as int),
            final(work).stops@,
        ),
        old(work).stops@.is_prefix_of(final(work).stops@),
{
    let ghost queue = channels.command_queue@;
    let ghost listed = channels.channels@;
    let ghost start = model(*output, *work);
    let ghost stops = work.stops@;
    let ghost mut n: int = 0;
    while channels.command_queue.len() > 0
        invariant
            0 <= n <= queue.len(),
            channels.command_queue@ == queue.skip(n),
            channels.channels@ == listed,
            forall|i: int| 0 <= i < n ==> !((#[trigger] queue[i]) is Play),
            model(*output, *work) == after_commands(start, queue.take(n)),
            listed_in_order(stops, start, queue.take(n), work.stops@),
            stops.is_prefix_of(work.stops@),
            queue == old(channels).command_queue@,
            listed == old(channels).channels@,
            start == model(*old(output), *old(work)),
            stops == old(work).stops@,
        decreases channels.command_queue@.len(),
    {
        if let Some(command) = channels.command_queue.pop_front() {
            assert(command == queue[n]);
            assert(channels.command_queue@ =~= queue.skip(n + 1));
            match command {
                AudioCommand::Play(play) => {
                    proof {
                        lemma_is_before_play(queue, n);
                    }
                    return Some(play);
                },
                other => {
                    let ghost earlier = work.stops@;
                    settle_command(output, work, other);
                    proof {
                        let next = queue.take(n + 1);
                        assert(next.drop_last() =~= queue.take(n));
                        assert(work.stops@.take(earlier.len() as int) =~= earlier);
                        assert(next.last() == other);
                        n = n + 1;
                    }
                },
            }
        }
    }
    proof {
        lemma_is_before_play(queue, n);
        assert(channels.command_queue@ =~= Seq::empty());
    }
    None
}

// ---------------------------------------------------------------------------------------------
// Gradual changes
// ---------------------------------------------------------------------------------------------
/// The gradual changes that are under way, each once. In which order they come is open.
pub fn due_tweens(output: &AudioOutput) -> (r: Vec<(SoundId, ActiveTween)>)
    ensures
        r@.no_duplicates(),
        forall|id: u64, tween: ActiveTween| #[trigger]
            r@.contains((SoundId(id), tween)) <==> output.active_tweens@.contains_key(id)
                && output.active_tweens@[id] == tween,
{
    let keys = keys_of(&output.active_tweens);
    let ghost tweens = output.active_tweens@;
    let mut r: Vec<(SoundId, ActiveTween)> = Vec::new();
    for i in 0..keys.len()
        invariant
            tweens == output.active_tweens@,
            keys@.to_set() == tweens.dom(),
            r@.len() == i,
            forall|k: int| 0 <= k < i ==> #[trigger] r@[k] == (SoundId(keys@[k]), tweens[keys@[k]]),
    {
        let key: u64 = keys[i];
        assert(keys@.to_set().contains(key));
        if let Some(tween) = output.active_tweens.get(&key) {
            r.push((SoundId(key), *tween));
        }
    }
    proof {
        assert forall|id: u64, tween: ActiveTween| #[trigger]
            r@.contains((SoundId(id), tween)) <==> tweens.contains_key(id) && tweens[id]
                == tween by {
            if r@.contains((SoundId(id), tween)) {
                let k = choose|k: int| 0 <= k < r@.len() && r@[k] == (SoundId(id), tween);
                assert(keys@.to_set().contains(keys@[k]));
            }
            if tweens.contains_key(id) && tweens[id] == tween {
                assert(keys@.to_set().contains(id));
                let k = choose|k: int| 0 <= k < keys@.len() && keys@[k] == id;
                assert(r@[k] == (SoundId(id), tween));
            }
        }
    }
    r
}

/// What a gradual change of that kind does to the player of its sound.
pub open spec fn tween_patch(kind: TweenType, value: Level) -> OpsPatch {
    match kind {
        TweenType::Volume => OpsPatch::Volume(value),
        TweenType::FadeOut => OpsPatch::Volume(value),
        TweenType::Pitch => OpsPatch::Pitch(value),
    }
}

/// The state after the gradual change of a sound was moved on: the sound, if it is playing, takes the
/// value that was reached, and a change that is complete ends. What the change is a change of, its
/// record says. Without one nothing happens.
pub open spec fn after_reading(m: AudioModel, reading: TweenReading) -> AudioModel {
    let id = reading.sound_id.0;
    if !m.tweens.contains_key(id) {
        m
    } else {
        let tween = m.tweens[id];
        let kind = tween.request.kind();
        let live = m.playing.contains_key(id);
        AudioModel {
            volumes: if live && !(kind is Pitch) {
                m.volumes.insert(id, reading.value)
            } else {
                m.volumes
            },
            ops: if live {
                patched_all(m.ops, set![id], tween_patch(kind, reading.value))
            } else {
                m.ops
            },
            tweens: if reading.complete {
                m.tweens.remove(id)
            } else {
                m.tweens.insert(id, ActiveTween { started: true, ..tween })
            },
            ..m
        }
    }
}

/// The state after the gradual changes were moved on.
pub open spec fn after_readings(m: AudioModel, readings: Seq<TweenReading>) -> AudioModel
    decreases readings.len(),
{
    if readings.len() == 0 {
        m
    } else {
        after_reading(after_readings(m, readings.drop_last()), readings.last())
    }
}

/// Whether the gradual change of a sound is complete.
pub open spec fn is_complete(readings: Seq<TweenReading>, id: u64) -> bool {
    exists|i: int|
        0 <= i < readings.len() && (#[trigger] readings[i]).sound_id.0 == id && readings[i].complete
}

/// The sounds that have faded out: those on record as fading out whose change is complete.
pub open spec fn faded_out(tweens: Map<u64, ActiveTween>, readings: Seq<TweenReading>) -> Set<u64> {
    Set::new(
        |id: u64|
            tweens.contains_key(id) && tweens[id].request is FadeOut && is_complete(readings, id),
    )
}

/// The state after the gradual changes were moved on and the sounds that have faded out were
/// stopped.
pub open spec fn after_tweens(m: AudioModel, readings: Seq<TweenReading>) -> AudioModel {
    after_stops(after_readings(m, readings), faded_out(m.tweens, readings))
}

/// A reading more completes the change of its sound, and of no other.
proof fn lemma_complete_step(readings: Seq<TweenReading>, id: u64)
    requires
        readings.len() > 0,
    ensures
        is_complete(readings, id) <==> is_complete(readings.drop_last(), id) || (
        readings.last().complete && readings.last().sound_id.0 == id),
{
    let done = readings.drop_last();
    if is_complete(done, id) {
        let k = choose|k: int|
            0 <= k < done.len() && (#[trigger] done[k]).sound_id.0 == id && done[k].complete;
        assert(readings[k] == done[k]);
    }
    if is_complete(readings, id) {
        let k = choose|k: int|
            0 <= k < readings.len() && (#[trigger] readings[k]).sound_id.0 == id
                && readings[k].complete;
        if k < done.len() {
            assert(done[k] == readings[k]);
        }
    }
    assert(readings[readings.len() - 1] == readings.last());
}

/// A gradual change stays on record, as what it is, until it is complete.
pub proof fn lemma_records_last(m: AudioModel, readings: Seq<TweenReading>, id: u64)
    ensures
        ({
            let after = after_readings(m, readings);
            &&& after.tweens.contains_key(id) <==> m.tweens.contains_key(id) && !is_complete(
                readings,
                id,
            )
            &&& after.tweens.contains_key(id) ==> after.tweens[id].request == m.tweens[id].request
        }),
    decreases readings.len(),
{
    if readings.len() > 0 {
        lemma_records_last(m, readings.drop_last(), id);
        lemma_complete_step(readings, id);
    }
}

/// Move the gradual change of a sound on, and say whether it has faded out.
fn settle_reading(output: &mut AudioOutput, work: &mut PendingWork, reading: TweenReading) -> (r:
    bool)
    ensures
        model(*final(output), *final(work)) == after_reading(
            model(*old(output), *old(work)),
            reading,
        ),
        final(work).stops@ == old(work).stops@,
        r == (reading.complete && old(output).active_tweens@.contains_key(reading.sound_id.0)
            && old(output).active_tweens@[reading.sound_id.0].request is FadeOut),
{
    let ghost before = model(*output, *work);
    let id: u64 = reading.sound_id.0;
    let under_way: Option<ActiveTween> = match output.active_tweens.get(&id) {
        Some(tween) => Some(*tween),
        None => None,
    };
    let tween: ActiveTween = match under_way {
        Some(tween) => tween,
        None => {
            return false;
        },
    };
    let kind = tween.request.tween_type();
    if output.playing_sounds.contains_key(&id) {
        match kind {
            TweenType::Volume | TweenType::FadeOut => {
                output.current_volumes.insert(id, reading.value);
                patch_ops(&mut work.ops, id, OpsPatch::Volume(reading.value));
            },
            TweenType::Pitch => {
                patch_ops(&mut work.ops, id, OpsPatch::Pitch(reading.value));
            },
        }
    }
    if reading.complete {
        output.active_tweens.remove(&id);
    } else {
        output.active_tweens.insert(id, ActiveTween { request: tween.request, started: true });
    }
    assert(model(*output, *work) =~= after_reading(before, reading));
    reading.complete && matches!(kind, TweenType::FadeOut)
}

/// Move the gradual changes on by what the host reads of them, and stop the sounds that have faded
/// out.
pub fn apply_tweens(
    output: &mut AudioOutput,
    work: &mut PendingWork,
    readings: &Vec<TweenReading>,
)
    ensures
        model(*final(output), *final(work)) == after_tweens(
            model(*old(output), *old(work)),
            readings@,
        ),
        old(work).stops@.is_prefix_of(final(work).stops@),
{
    let ghost start = model(*output, *work);
    let ghost stops = work.stops@;
    let mut ended: Vec<u64> = Vec::new();
    assert(ended@.to_set() =~= faded_out(start.tweens, readings@.take(0)));
    for i in 0..readings.len()
        invariant
            model(*output, *work) == after_readings(start, readings@.take(i as int)),
            work.stops@ == stops,
            ended@.to_set() == faded_out(start.tweens, readings@.take(i as int)),
    {
        let reading: TweenReading = readings[i];
        let ghost done = readings@.take(i as int);
        let ghost next = readings@.take(i + 1);
        let ghost before = ended@;
        let faded = settle_reading(output, work, reading);
        if faded {
            ended.push(reading.sound_id.0);
        }
        proof {
            assert(next.drop_last() =~= done);
            assert(next.last() == reading);
            lemma_records_last(start, done, reading.sound_id.0);
            assert forall|id: u64| ended@.to_set().contains(id) <==> faded_out(
                start.tweens,
                next,
            ).contains(id) by {
                vstd::seq_lib::lemma_seq_contains_after_push(before, reading.sound_id.0, id);
                lemma_complete_step(next, id);
                assert(before.to_set().contains(id) <==> faded_out(start.tweens, done).contains(
                    id,
                ));
            }
            assert(ended@.to_set() =~= faded_out(start.tweens, next));
        }
    }
    assert(readings@.take(readings@.len() as int) =~= readings@);
    stop_all(output, work, &ended);
}

// ---------------------------------------------------------------------------------------------
// Players
// ---------------------------------------------------------------------------------------------
/// One call on a player.
#[derive(Clone, Copy, Debug, PartialEq, Eq, Structural)]
pub enum PlayerCall {
    SetVolume(Level),
    SetPitch(Level),
    SetPaused(bool),
}

/// The calls that carry out what is to be done to a player.
pub open spec fn calls_of(ops: PendingSoundOps) -> Seq<PlayerCall> {
    let volume = match ops.volume {
        Some(level) => seq![PlayerCall::SetVolume(level)],
        None => seq![],
    };
    let pitch = match ops.pitch {
        Some(level) => seq![PlayerCall::SetPitch(level)],
        None => seq![],
    };
    let paused = match ops.paused {
        Some(paused) => seq![PlayerCall::SetPaused(paused)],
        None => seq![],
    };
    volume + pitch + paused
}

/// The calls that carry out what is to be done to the player of a sound: volume, pitch, pausing.
pub fn apply_pending_ops(work: &PendingWork, sound_id: SoundId) -> (r: Vec<PlayerCall>)
    ensures
        r@ == calls_of(ops_of(work.ops@, sound_id.0)),
{
    let mut r: Vec<PlayerCall> = Vec::new();
    if let Some(ops) = work.ops.get(&sound_id.0) {
        if let Some(volume) = ops.volume {
            r.push(PlayerCall::SetVolume(volume));
        }
        if let Some(pitch) = ops.pitch {
            r.push(PlayerCall::SetPitch(pitch));
        }
        if let Some(paused) = ops.paused {
            r.push(PlayerCall::SetPaused(paused));
        }
    }
    assert(r@ =~= calls_of(ops_of(work.ops@, sound_id.0)));
    r
}

/// The sounds that are playing with their players, each once. In which order they come is open.
pub fn players(output: &AudioOutput) -> (r: Vec<(SoundId, GodotNodeHandle)>)
    ensures
        r@.no_duplicates(),
        forall|id: u64, player: GodotNodeHandle| #[trigger]
            r@.contains((SoundId(id), player)) <==> output.playing_sounds@.contains_key(id)
                && output.playing_sounds@[id] == player,
{
    let keys = keys_of(&output.playing_sounds);
    let ghost playing = output.playing_sounds@;
    let mut r: Vec<(SoundId, GodotNodeHandle)> = Vec::new();
    for i in 0..keys.len()
        invariant
            playing == output.playing_sounds@,
            keys@.to_set() == playing.dom(),
            r@.len() == i,
            forall|k: int| 0 <= k < i ==> #[trigger] r@[k] == (SoundId(keys@[k]), playing[keys@[k]]),
    {
        let key: u64 = keys[i];
        assert(keys@.to_set().contains(key));
        if let Some(player) = output.playing_sounds.get(&key) {
            r.push((SoundId(key), *player));
        }
    }
    proof {
        assert forall|id: u64, player: GodotNodeHandle| #[trigger]
            r@.contains((SoundId(id), player)) <==> playing.contains_key(id) && playing[id]
                == player by {
            if r@.contains((SoundId(id), player)) {
                let k = choose|k: int| 0 <= k < r@.len() && r@[k] == (SoundId(id), player);
                assert(keys@.to_set().contains(keys@[k]));
            }
            if playing.contains_key(id) && playing[id] == player {
                assert(keys@.to_set().contains(id));
                let k = choose|k: int| 0 <= k < keys@.len() && keys@[k] == id;
                assert(r@[k] == (SoundId(id), player));
            }
        }
    }
    r
}

/// What becomes of a sound at the end of the frame.
#[derive(Clone, Copy, Debug, PartialEq, Eq, Structural)]
pub enum SoundFate {
    /// It plays on.
    Stays,
    /// It came to its end: its player is taken out of the tree and freed, and it is forgotten.
    Ends,
    /// Its player is gone: it is forgotten.
    Lost,
}

/// What becomes of a sound whose player, if there still is one, says whether it is playing.
pub open spec fn fate(player_is_playing: Option<bool>) -> SoundFate {
    match player_is_playing {
        None => SoundFate::Lost,
        Some(true) => SoundFate::Stays,
        Some(false) => SoundFate::Ends,
    }
}

/// What becomes of a sound whose player, if there still is one, says whether it is playing.
pub fn sound_fate(player_is_playing: Option<bool>) -> (r: SoundFate)
    ensures
        r == fate(player_is_playing),
{
    match player_is_playing {
        None => SoundFate::Lost,
        Some(playing) => if playing {
            SoundFate::Stays
        } else {
            SoundFate::Ends
        },
    }
}

/// The sounds that do not stay.
pub open spec fn leaving(fates: Seq<(SoundId, SoundFate)>) -> Set<u64> {
    Set::new(
        |id: u64|
            exists|i: int|
                0 <= i < fates.len() && (#[trigger] fates[i]).0.0 == id && !(fates[i].1 is Stays),
    )
}

/// The state after the sounds `ids` were forgotten, with their gradual changes.
pub open spec fn after_retired(m: AudioModel, ids: Set<u64>) -> AudioModel {
    AudioModel {
        playing: m.playing.remove_keys(ids),
        channel_of: m.channel_of.remove_keys(ids),
        tweens: m.tweens.remove_keys(ids),
        volumes: m.volumes.remove_keys(ids),
        ..m
    }
}

/// Forget the sounds that do not stay.
pub fn retire(output: &mut AudioOutput, fates: &Vec<(SoundId, SoundFate)>)
    ensures
        forall|work: PendingWork| #[trigger]
            model(*final(output), work) == after_retired(
                model(*old(output), work),
                leaving(fates@),
            ),
{
    let ghost before = *output;
    proof {
        let none = leaving(fates@.take(0));
        assert(none =~= Set::empty());
        assert(output.playing_sounds@ =~= before.playing_sounds@.remove_keys(none));
        assert(output.sound_to_channel@ =~= before.sound_to_channel@.remove_keys(none));
        assert(output.active_tweens@ =~= before.active_tweens@.remove_keys(none));
        assert(output.current_volumes@ =~= before.current_volumes@.remove_keys(none));
    }
    for i in 0..fates.len()
        invariant
            output.playing_sounds@ == before.playing_sounds@.remove_keys(
                leaving(fates@.take(i as int)),
            ),
            output.sound_to_channel@ == before.sound_to_channel@.remove_keys(
                leaving(fates@.take(i as int)),
            ),
            output.active_tweens@ == before.active_tweens@.remove_keys(
                leaving(fates@.take(i as int)),
            ),
            output.current_volumes@ == before.current_volumes@.remove_keys(
                leaving(fates@.take(i as int)),
            ),
    {
        let id: u64 = fates[i].0.0;
        let stays: bool = matches!(fates[i].1, SoundFate::Stays);
        if !stays {
            output.playing_sounds.remove(&id);
            output.sound_to_channel.remove(&id);
            output.active_tweens.remove(&id);
            output.current_volumes.remove(&id);
        }
        proof {
            lemma_leaving_step(fates@, i as int);
            let next = leaving(fates@.take(i + 1));
            assert(output.playing_sounds@ =~= before.playing_sounds@.remove_keys(next));
            assert(output.sound_to_channel@ =~= before.sound_to_channel@.remove_keys(next));
            assert(output.active_tweens@ =~= before.active_tweens@.remove_keys(next));
            assert(output.current_volumes@ =~= before.current_volumes@.remove_keys(next));
        }
    }
    assert(fates@.take(fates@.len() as int) =~= fates@);
}

proof fn lemma_leaving_step(fates: Seq<(SoundId, SoundFate)>, i: int)
    requires
        0 <= i < fates.len(),
    ensures
        leaving(fates.take(i + 1)) == (if fates[i].1 is Stays {
            leaving(fates.take(i))
        } else {
            leaving(fates.take(i)).insert(fates[i].0.0)
        }),
{
    let done = fates.take(i);
    let next = fates.take(i + 1);
    let expected = if fates[i].1 is Stays {
        leaving(done)
    } else {
        leaving(done).insert(fates[i].0.0)
    };
    assert forall|id: u64| leaving(next).contains(id) <==> expected.contains(id) by {
        if leaving(next).contains(id) {
            let k = choose|k: int|
                0 <= k < next.len() && (#[trigger] next[k]).0.0 == id && !(next[k].1 is Stays);
            if k < i {
                assert(done[k] == next[k]);
            }
        }
        if leaving(done).contains(id) {
            let k = choose|k: int|
                0 <= k < done.len() && (#[trigger] done[k]).0.0 == id && !(done[k].1 is Stays);
            assert(next[k] == done[k]);
        }
        assert(next[i] == fates[i]);
    }
    assert(leaving(next) =~= expected);
}

} // verus!
