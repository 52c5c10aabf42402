//! The course of one frame: which of its parts comes next, and what the host has to do for it.

use vstd::multiset::Multiset;
use vstd::prelude::*;

use crate::audio::channels::GodotAudioChannels;
use crate::audio::frame::{
    after_commands, after_retired, after_tweens, apply_pending_ops, apply_tweens, before_play,
    behind_play, calls_of, due_tweens, first_play, leaving, listed_in_order, next_play, players,
    retire, PlayerCall, SoundFate,
};
use crate::audio::output::{model, ops_of, AudioModel, AudioOutput, PendingSoundOps, PendingWork};
use crate::audio::play::{after_play, finish_play};
use crate::audio::types::{ActiveTween, AudioCommand, PlayCommand, SoundId, TweenReading};
use crate::ids::GodotNodeHandle;

verus! {

broadcast use {
    vstd::std_specs::hash::group_hash_axioms,
    vstd::multiset::group_multiset_axioms,
};

/// What the frame waits for.
#[derive(Clone, Copy, Debug)]
pub enum Stage {
    /// To begin.
    Commands,
    /// The player for the sound of a command.
    Player(PlayCommand),
    /// Where the gradual changes stand.
    Tweens,
    /// That the players to stop were stopped.
    Stops,
    /// What became of the sounds that are playing.
    Fates,
    /// Nothing any more.
    Over,
}

/// What the host tells the frame.
#[derive(Debug)]
pub enum FrameEvent {
    Begin,
    /// The player that was created and started, or none as long as the asset is not ready.
    Player(Option<GodotNodeHandle>),
    Tweens(Vec<TweenReading>),
    Stopped,
    Fates(Vec<(SoundId, SoundFate)>),
}

/// What is to be done to the player of a sound before it is asked whether it is still playing.
#[derive(Debug)]
pub struct PlayerTask {
    pub sound_id: SoundId,
    pub player: GodotNodeHandle,
    pub calls: Vec<PlayerCall>,
}

/// What the frame asks of the host.
#[derive(Debug)]
pub enum FrameAction {
    CreatePlayer(PlayCommand),
    ReadTweens(Vec<(SoundId, ActiveTween)>),
    StopPlayers(Vec<(SoundId, GodotNodeHandle)>),
    TendPlayers(Vec<PlayerTask>),
    Done,
}

/// A frame under way.
#[derive(Debug)]
pub struct AudioFrame {
    pub stage: Stage,
    pub work: PendingWork,
}

/// Whether an event is what the frame waits for.
pub open spec fn awaited(stage: Stage, event: FrameEvent) -> bool {
    match stage {
        Stage::Commands => event is Begin,
        Stage::Player(_) => event is Player,
        Stage::Tweens => event is Tweens,
        Stage::Stops => event is Stopped,
        Stage::Fates => event is Fates,
        Stage::Over => false,
    }
}

/// Whether a list holds these gradual changes, each once.
pub open spec fn lists_tweens(
    list: Seq<(SoundId, ActiveTween)>,
    tweens: Map<u64, ActiveTween>,
) -> bool {
    &&& list.no_duplicates()
    &&& forall|id: u64, tween: ActiveTween| #[trigger]
        list.contains((SoundId(id), tween)) <==> tweens.contains_key(id) && tweens[id] == tween
}

/// Whether the tasks are those for the sounds that are playing: one for each, with the calls that
/// carry out what is to be done to its player.
pub open spec fn tends(tasks: Seq<PlayerTask>, m: AudioModel) -> bool {
    &&& forall|i: int|
        0 <= i < tasks.len() ==> {
            let task = #[trigger] tasks[i];
            &&& m.playing.contains_key(task.sound_id.0)
            &&& m.playing[task.sound_id.0] == task.player
            &&& task.calls@ == calls_of(ops_of(m.ops, task.sound_id.0))
        }
    &&& forall|i: int, j: int|
        #![trigger tasks[i], tasks[j]]
        0 <= i < j < tasks.len() ==> tasks[i].sound_id != tasks[j].sound_id
    &&& forall|id: u64| #[trigger]
        m.playing.contains_key(id) ==> exists|i: int|
            0 <= i < tasks.len() && (#[trigger] tasks[i]).sound_id.0 == id
}

/// What holds after the commands up to the next one that plays a sound were settled: the frame asks
/// for its player; where there is none, it goes on to the gradual changes. The players to stop stand
/// in the order of the commands.
pub open spec fn settled(
    queue: Seq<AudioCommand>,
    m: AudioModel,
    stops: Seq<(SoundId, GodotNodeHandle)>,
    next_queue: Seq<AudioCommand>,
    next: AudioModel,
    next_stops: Seq<(SoundId, GodotNodeHandle)>,
    stage: Stage,
    action: FrameAction,
) -> bool {
    let commands = queue.take(before_play(queue) as int);
    &&& next == after_commands(m, commands)
    &&& listed_in_order(stops, m, commands, next_stops)
    &&& stops.is_prefix_of(next_stops)
    &&& next_queue == behind_play(queue)
    &&& match first_play(queue) {
        Some(play) => stage == Stage::Player(play) && action == FrameAction::CreatePlayer(play),
        None => {
            &&& stage is Tweens
            &&& action matches FrameAction::ReadTweens(list) && lists_tweens(list@, next.tweens)
        },
    }
}

/// What a step of the frame comes to. The players to stop stand in the order in which they were
/// listed: those of the commands first, one command after another, then those that faded out.
pub open spec fn stepped(
    stage: Stage,
    event: FrameEvent,
    queue: Seq<AudioCommand>,
    m: AudioModel,
    stops: Seq<(SoundId, GodotNodeHandle)>,
    next_stage: Stage,
    next_queue: Seq<AudioCommand>,
    next: AudioModel,
    next_stops: Seq<(SoundId, GodotNodeHandle)>,
    action: FrameAction,
) -> bool {
    match (stage, event) {
        (Stage::Commands, FrameEvent::Begin) => settled(
            queue,
            m,
            stops,
            next_queue,
            next,
            next_stops,
            next_stage,
            action,
        ),
        (Stage::Player(play), FrameEvent::Player(Some(player))) => settled(
            queue,
            after_play(m, play, player),
            stops,
            next_queue,
            next,
            next_stops,
            next_stage,
            action,
        ),
        (Stage::Player(play), FrameEvent::Player(None)) => {
            &&& next == m
            &&& next_stops == stops
            &&& next_queue == seq![AudioCommand::Play(play)] + queue
            &&& next_stage is Tweens
            &&& action matches FrameAction::ReadTweens(list) && lists_tweens(list@, next.tweens)
        },
        (Stage::Tweens, FrameEvent::Tweens(readings)) => {
            let moved = after_tweens(m, readings@);
            &&& next == (AudioModel { stops: Multiset::empty(), ..moved })
            &&& next_queue == queue
            &&& next_stage is Stops
            &&& next_stops == Seq::<(SoundId, GodotNodeHandle)>::empty()
            &&& action matches FrameAction::StopPlayers(list) && list@.to_multiset() == moved.stops
                && stops.is_prefix_of(list@)
        },
        (Stage::Stops, FrameEvent::Stopped) => {
            &&& next == m
            &&& next_stops == stops
            &&& next_queue == queue
            &&& next_stage is Fates
            &&& action matches FrameAction::TendPlayers(tasks) && tends(tasks@, m)
        },
        (Stage::Fates, FrameEvent::Fates(fates)) => {
            &&& next == after_retired(m, leaving(fates@))
            &&& next_stops == stops
            &&& next_queue == queue
            &&& next_stage is Over
            &&& action is Done
        },
        _ => false,
    }
}

fn settle(
    channels: &mut GodotAudioChannels,
    output: &mut AudioOutput,
    work: &mut PendingWork,
) -> (r: (Stage, FrameAction))
    ensures
        settled(
            old(channels).command_queue@,
            model(*old(output), *old(work)),
            old(work).stops@,
            final(channels).command_queue@,
            model(*final(output), *final(work)),
            final(work).stops@,
            r.0,
            r.1,
        ),
        final(channels).channels@ == old(channels).channels@,
{
    match next_play(channels, output, work) {
        Some(play) => (Stage::Player(play), FrameAction::CreatePlayer(play)),
        None => (Stage::Tweens, FrameAction::ReadTweens(due_tweens(output))),
    }
}

/// The tasks for the sounds that are playing.
fn player_tasks(output: &AudioOutput, work: &PendingWork) -> (r: Vec<PlayerTask>)
    ensures
        tends(r@, model(*output, *work)),
{
    let list = players(output);
    let ghost m = model(*output, *work);
    let mut r: Vec<PlayerTask> = Vec::new();
    for i in 0..list.len()
        invariant
            m == model(*output, *work),
            list@.no_duplicates(),
            forall|id: u64, player: GodotNodeHandle| #[trigger]
                list@.contains((SoundId(id), player)) <==> m.playing.contains_key(id)
                    && m.playing[id] == player,
            r@.len() == i,
            forall|k: int|
                0 <= k < i ==> (#[trigger] r@[k]).sound_id == list@[k].0 && r@[k].player
                    == list@[k].1 && r@[k].calls@ == calls_of(ops_of(m.ops, r@[k].sound_id.0)),
    {
        let (sound_id, player) = list[i];
        r.push(PlayerTask { sound_id, player, calls: apply_pending_ops(work, sound_id) });
    }
    proof {
        assert forall|i: int| 0 <= i < r@.len() implies {
            let task = #[trigger] r@[i];
            &&& m.playing.contains_key(task.sound_id.0)
            &&& m.playing[task.sound_id.0] == task.player
            &&& task.calls@ == calls_of(ops_of(m.ops, task.sound_id.0))
        } by {
            assert(list@.contains(list@[i]));
            assert(list@[i] == (SoundId(list@[i].0.0), list@[i].1));
        }
        assert forall|i: int, j: int|
            #![trigger r@[i], r@[j]]
            0 <= i < j < r@.len() implies r@[i].sound_id != r@[j].sound_id by {
            if r@[i].sound_id == r@[j].sound_id {
                assert(list@[i] == list@[j]);
            }
        }
        assert forall|id: u64| #[trigger] m.playing.contains_key(id) implies exists|i: int|
            0 <= i < r@.len() && (#[trigger] r@[i]).sound_id.0 == id by {
            assert(list@.contains((SoundId(id), m.playing[id])));
            let i = choose|i: int| 0 <= i < list@.len() && list@[i] == (SoundId(id), m.playing[id]);
            assert(r@[i].sound_id.0 == id);
        }
    }
    r
}

impl AudioFrame {
    /// A frame that is to begin, with nothing to be done yet.
    pub fn new() -> (r: AudioFrame)
        ensures
            r.stage is Commands,
            r.work.ops@ == Map::<u64, PendingSoundOps>::empty(),
            r.work.stops@ == Seq::<(SoundId, GodotNodeHandle)>::empty(),
    {
        AudioFrame { stage: Stage::Commands, work: PendingWork::new() }
    }
}

/// One step of the frame: it takes what the host tells and says what the host has to do next. First
/// come the commands, with a player for each sound that is to play; then the gradual changes; then
/// the players to stop; then those of the sounds that are playing; and last the sounds that came to
/// their end are forgotten.
pub fn audio_main_thread(
    frame: &mut AudioFrame,
    channels: &mut GodotAudioChannels,
    output: &mut AudioOutput,
    event: FrameEvent,
) -> (action: FrameAction)
    requires
        awaited(old(frame).stage, event),
    ensures
        stepped(
            old(frame).stage,
            event,
            old(channels).command_queue@,
            model(*old(output), old(frame).work),
            old(frame).work.stops@,
            final(frame).stage,
            final(channels).command_queue@,
            model(*final(output), final(frame).work),
            final(frame).work.stops@,
            action,
        ),
        final(channels).channels@ == old(channels).channels@,
{
    match event {
        FrameEvent::Begin => {
            let (stage, action) = settle(channels, output, &mut frame.work);
            frame.stage = stage;
            action
        },
        FrameEvent::Player(player) => {
            if let Stage::Player(play) = frame.stage {
                let goes_on = finish_play(channels, output, play, player);
                if goes_on {
                    let (stage, action) = settle(channels, output, &mut frame.work);
                    frame.stage = stage;
                    return action;
                }
            }
            frame.stage = Stage::Tweens;
            FrameAction::ReadTweens(due_tweens(output))
        },
        FrameEvent::Tweens(readings) => {
            apply_tweens(output, &mut frame.work, &readings);
            let ghost moved = model(*output, frame.work);
            let mut stops: Vec<(SoundId, GodotNodeHandle)> = Vec::new();
            std::mem::swap(&mut stops, &mut frame.work.stops);
            frame.stage = Stage::Stops;
            proof {
                broadcast use vstd::seq_lib::group_to_multiset_ensures;

                assert(frame.work.stops@.to_multiset() =~= Multiset::empty());
                assert(model(*output, frame.work) =~= (AudioModel {
                    stops: Multiset::empty(),
                    ..moved
                }));
            }
            FrameAction::StopPlayers(stops)
        },
        FrameEvent::Stopped => {
            frame.stage = Stage::Fates;
            FrameAction::TendPlayers(player_tasks(output, &frame.work))
        },
        FrameEvent::Fates(fates) => {
            let ghost before = *output;
            retire(output, &fates);
            assert(model(*output, frame.work) == after_retired(
                model(before, frame.work),
                leaving(fates@),
            ));
            frame.stage = Stage::Over;
            FrameAction::Done
        },
    }
}

} // verus!
