//! The sounds that are playing, and what is to be done to their players at the end of the frame.

use std::collections::HashMap;
use vstd::multiset::Multiset;
use vstd::prelude::*;

use crate::audio::types::{ActiveTween, ChannelId, Level, SoundId};
use crate::ids::GodotNodeHandle;

verus! {

broadcast use {
    vstd::std_specs::hash::group_hash_axioms,
    vstd::multiset::group_multiset_axioms,
};

/// The sounds that are playing.
#[derive(Debug)]
pub struct AudioOutput {
    pub playing_sounds: HashMap<u64, GodotNodeHandle>,
    pub sound_to_channel: HashMap<u64, ChannelId>,
    pub active_tweens: HashMap<u64, ActiveTween>,
    pub current_volumes: HashMap<u64, Level>,
}

/// What is to be done to the player of a sound.
#[derive(Clone, Copy, Debug, PartialEq, Eq, Structural)]
pub struct PendingSoundOps {
    pub volume: Option<Level>,
    pub pitch: Option<Level>,
    pub paused: Option<bool>,
}

/// What a frame has to do to the players: changes by sound, and players to stop and free.
#[derive(Debug)]
pub struct PendingWork {
    pub ops: HashMap<u64, PendingSoundOps>,
    pub stops: Vec<(SoundId, GodotNodeHandle)>,
}

/// The state of the audio system within a frame.
#[verifier::ext_equal]
pub struct AudioModel {
    /// The player of every sound that is playing.
    pub playing: Map<u64, GodotNodeHandle>,
    pub channel_of: Map<u64, ChannelId>,
    pub tweens: Map<u64, ActiveTween>,
    pub volumes: Map<u64, Level>,
    pub ops: Map<u64, PendingSoundOps>,
    /// The players to stop, as often as each is listed. In which order the sounds of one channel
    /// come is open.
    pub stops: Multiset<(SoundId, GodotNodeHandle)>,
}

/// The state that the parts stand for.
pub open spec fn model(output: AudioOutput, work: PendingWork) -> AudioModel {
    AudioModel {
        playing: output.playing_sounds@,
        channel_of: output.sound_to_channel@,
        tweens: output.active_tweens@,
        volumes: output.current_volumes@,
        ops: work.ops@,
        stops: work.stops@.to_multiset(),
    }
}

/// Nothing to be done to a player.
pub open spec fn no_ops() -> PendingSoundOps {
    PendingSoundOps { volume: None, pitch: None, paused: None }
}

impl AudioOutput {
    /// No sound is playing.
    pub fn new() -> (r: AudioOutput)
        ensures
            r.playing_sounds@ == Map::<u64, GodotNodeHandle>::empty(),
            r.sound_to_channel@ == Map::<u64, ChannelId>::empty(),
            r.active_tweens@ == Map::<u64, ActiveTween>::empty(),
            r.current_volumes@ == Map::<u64, Level>::empty(),
    {
        AudioOutput {
            playing_sounds: HashMap::new(),
            sound_to_channel: HashMap::new(),
            active_tweens: HashMap::new(),
            current_volumes: HashMap::new(),
        }
    }
}

impl PendingWork {
    /// Nothing to be done.
    pub fn new() -> (r: PendingWork)
        ensures
            r.ops@ == Map::<u64, PendingSoundOps>::empty(),
            r.stops@ == Seq::<(SoundId, GodotNodeHandle)>::empty(),
    {
        PendingWork { ops: HashMap::new(), stops: Vec::new() }
    }
}

/// The sounds of a channel.
pub open spec fn sounds_of(channel_of: Map<u64, ChannelId>, channel: Seq<char>) -> Set<u64> {
    Set::new(|id: u64| channel_of.contains_key(id) && channel_of[id]@ == channel)
}

/// The keys of a map, each once. In which order they come is open.
pub fn keys_of<V>(map: &HashMap<u64, V>) -> (r: Vec<u64>)
    ensures
        r@.no_duplicates(),
        r@.to_set() == map@.dom(),
{
    let mut r: Vec<u64> = Vec::new();
    for key in it: map.keys()
        invariant
            it.seq() == vstd::std_specs::iter::IteratorSpec::remaining(
                &vstd::std_specs::hash::spec_keys_iter(map),
            ),
            r@.len() == it.index(),
            forall|k: int| 0 <= k < r@.len() ==> (#[trigger] r@[k]) == *it.seq()[k],
    {
        r.push(*key);
    }
    let ghost all = vstd::std_specs::iter::IteratorSpec::remaining(
        &vstd::std_specs::hash::spec_keys_iter(map),
    );
    assert(r@ =~= all.unref());
    r
}

/// The sounds of a channel, each once. In which order they come is open.
pub fn collect_channel_sound_ids(output: &AudioOutput, channel_id: ChannelId) -> (r: Vec<u64>)
    ensures
        r@.no_duplicates(),
        r@.to_set() == sounds_of(output.sound_to_channel@, channel_id@),
{
    let keys = keys_of(&output.sound_to_channel);
    let ghost map = output.sound_to_channel@;
    let ghost wanted = sounds_of(map, channel_id@);
    let mut r: Vec<u64> = Vec::new();
    for i in 0..keys.len()
        invariant
            map == output.sound_to_channel@,
            wanted == sounds_of(map, channel_id@),
            keys@.no_duplicates(),
            keys@.to_set() == map.dom(),
            r@.no_duplicates(),
            forall|id: u64| #[trigger]
                r@.contains(id) <==> keys@.take(i as int).contains(id) && wanted.contains(id),
    {
        let key: u64 = keys[i];
        let ghost before = r@;
        proof {
            assert(keys@.to_set().contains(key));
            assert(map.contains_key(key));
            if keys@.take(i as int).contains(key) {
                let k = choose|k: int| 0 <= k < i && keys@.take(i as int)[k] == key;
                assert(keys@[k] == keys@[i as int]);
            }
            assert(!before.contains(key));
            assert forall|k: int| 0 <= k < before.len() implies before[k] != key by {
                assert(before.contains(before[k]));
            }
        }
        if let Some(channel) = output.sound_to_channel.get(&key) {
            if channel.same(&channel_id) {
                r.push(key);
            }
        }
        proof {
            let next = keys@.take(i + 1);
            assert(next =~= keys@.take(i as int).push(key));
            assert forall|id: u64| #[trigger] r@.contains(id) <==> next.contains(id)
                && wanted.contains(id) by {
                vstd::seq_lib::lemma_seq_contains_after_push(keys@.take(i as int), key, id);
                vstd::seq_lib::lemma_seq_contains_after_push(before, key, id);
            }
        }
    }
    assert(keys@.take(keys@.len() as int) =~= keys@);
    assert forall|id: u64| r@.to_set().contains(id) <==> wanted.contains(id) by {
        assert(keys@.contains(id) <==> keys@.to_set().contains(id));
    }
    assert(r@.to_set() =~= wanted);
    r
}

/// The players of the sounds `gone`, each once.
pub open spec fn players_of(playing: Map<u64, GodotNodeHandle>, gone: Set<u64>) -> Multiset<
    (SoundId, GodotNodeHandle),
> {
    Multiset::from_set(
        Set::new(
            |p: (SoundId, GodotNodeHandle)|
                gone.contains(p.0.0) && playing.contains_key(p.0.0) && playing[p.0.0] == p.1,
        ),
    )
}

/// The state after the sounds `ids` were stopped: those of them that were playing leave it in
/// every respect but their gradual changes, and their players are listed to be stopped.
pub open spec fn after_stops(m: AudioModel, ids: Set<u64>) -> AudioModel {
    let gone = ids.intersect(m.playing.dom());
    AudioModel {
        playing: m.playing.remove_keys(gone),
        channel_of: m.channel_of.remove_keys(gone),
        volumes: m.volumes.remove_keys(gone),
        ops: m.ops.remove_keys(gone),
        stops: m.stops.add(players_of(m.playing, gone)),
        ..m
    }
}

proof fn lemma_pairs_finite(playing: Map<u64, GodotNodeHandle>, gone: Set<u64>)
    requires
        gone.finite(),
    ensures
        Set::new(
            |p: (SoundId, GodotNodeHandle)|
                gone.contains(p.0.0) && playing.contains_key(p.0.0) && playing[p.0.0] == p.1,
        ).finite(),
    decreases gone.len(),
{
    let pairs = |g: Set<u64>|
        Set::new(
            |p: (SoundId, GodotNodeHandle)|
                g.contains(p.0.0) && playing.contains_key(p.0.0) && playing[p.0.0] == p.1,
        );
    if gone.len() == 0 {
        assert(gone =~= Set::empty());
        assert(pairs(gone) =~= Set::empty());
    } else {
        let x = gone.choose();
        lemma_pairs_finite(playing, gone.remove(x));
        if playing.contains_key(x) {
            assert(pairs(gone) =~= pairs(gone.remove(x)).insert((SoundId(x), playing[x])));
        } else {
            assert(pairs(gone) =~= pairs(gone.remove(x)));
        }
    }
}

/// How often a player is listed among those of the sounds `gone`.
pub proof fn lemma_players_count(
    playing: Map<u64, GodotNodeHandle>,
    gone: Set<u64>,
    p: (SoundId, GodotNodeHandle),
)
    requires
        gone.finite(),
    ensures
        players_of(playing, gone).count(p) == (if gone.contains(p.0.0) && playing.contains_key(
            p.0.0,
        ) && playing[p.0.0] == p.1 {
            1nat
        } else {
            0
        }),
{
    lemma_pairs_finite(playing, gone);
    let pairs = Set::new(
        |p: (SoundId, GodotNodeHandle)|
            gone.contains(p.0.0) && playing.contains_key(p.0.0) && playing[p.0.0] == p.1,
    );
    let counts = Map::<(SoundId, GodotNodeHandle), nat>::new(|k| pairs.contains(k), |v| 1);
    assert(counts.dom() =~= pairs);
}

/// Stopping sounds one after the other comes to the same as stopping them together.
pub proof fn law_stops_add_up(m: AudioModel, ids: Set<u64>, more: Set<u64>)
    requires
        m.playing.dom().finite(),
    ensures
        after_stops(after_stops(m, ids), more) == after_stops(m, ids.union(more)),
{
    let a = after_stops(m, ids);
    let b = after_stops(a, more);
    let c = after_stops(m, ids.union(more));
    let gone_a = ids.intersect(m.playing.dom());
    let gone_b = more.intersect(a.playing.dom());
    let gone_c = ids.union(more).intersect(m.playing.dom());
    assert(a.playing.dom() =~= m.playing.dom().difference(gone_a));
    assert forall|p: (SoundId, GodotNodeHandle)| b.stops.count(p) == c.stops.count(p) by {
        lemma_players_count(m.playing, gone_a, p);
        lemma_players_count(a.playing, gone_b, p);
        lemma_players_count(m.playing, gone_c, p);
    }
    assert(b =~= c);
}

/// Stop a sound, if it is playing: its player is listed to be stopped and freed, and whatever else
/// was to be done to it is dropped.
pub fn schedule_stop_sound(output: &mut AudioOutput, work: &mut PendingWork, sound_id: SoundId)
    ensures
        model(*final(output), *final(work)) == after_stops(
            model(*old(output), *old(work)),
            set![sound_id.0],
        ),
        old(work).stops@.is_prefix_of(final(work).stops@),
{
    let ghost before = model(*output, *work);
    let ghost gone = set![sound_id.0].intersect(before.playing.dom());
    let ghost stops = work.stops@;
    if let Some(handle) = output.playing_sounds.remove(&sound_id.0) {
        output.sound_to_channel.remove(&sound_id.0);
        output.current_volumes.remove(&sound_id.0);
        work.ops.remove(&sound_id.0);
        work.stops.push((sound_id, handle));
        proof {
            broadcast use vstd::seq_lib::to_multiset_build;

            assert(gone =~= set![sound_id.0]);
        }
    } else {
        assert(gone =~= Set::empty());
    }
    proof {
        let after = after_stops(before, set![sound_id.0]);
        let now = model(*output, *work);
        assert forall|p: (SoundId, GodotNodeHandle)|
            now.stops.count(p) == after.stops.count(p) by {
            lemma_players_count(before.playing, gone, p);
        }
        assert(now =~= after);
    }
}

/// A change to what is to be done to the player of a sound.
#[derive(Clone, Copy, Debug, PartialEq, Eq, Structural)]
pub enum OpsPatch {
    Volume(Level),
    Pitch(Level),
    Paused(bool),
}

/// What is to be done to a player after a change; a later change of one kind replaces an earlier
/// one.
pub open spec fn patched(ops: PendingSoundOps, patch: OpsPatch) -> PendingSoundOps {
    match patch {
        OpsPatch::Volume(level) => PendingSoundOps { volume: Some(level), ..ops },
        OpsPatch::Pitch(level) => PendingSoundOps { pitch: Some(level), ..ops },
        OpsPatch::Paused(paused) => PendingSoundOps { paused: Some(paused), ..ops },
    }
}

/// What is to be done to the player of a sound.
pub open spec fn ops_of(ops: Map<u64, PendingSoundOps>, id: u64) -> PendingSoundOps {
    if ops.contains_key(id) {
        ops[id]
    } else {
        no_ops()
    }
}

/// What is to be done to the players after one change to each of the sounds `ids`.
pub open spec fn patched_all(
    ops: Map<u64, PendingSoundOps>,
    ids: Set<u64>,
    patch: OpsPatch,
) -> Map<u64, PendingSoundOps> {
    Map::new(
        |id: u64| ops.contains_key(id) || ids.contains(id),
        |id: u64|
            if ids.contains(id) {
                patched(ops_of(ops, id), patch)
            } else {
                ops[id]
            },
    )
}

/// Change what is to be done to the player of a sound.
pub fn patch_ops(ops: &mut HashMap<u64, PendingSoundOps>, id: u64, patch: OpsPatch)
    ensures
        final(ops)@ == patched_all(old(ops)@, set![id], patch),
{
    let now: PendingSoundOps = match ops.get(&id) {
        Some(now) => *now,
        None => PendingSoundOps { volume: None, pitch: None, paused: None },
    };
    let next: PendingSoundOps = match patch {
        OpsPatch::Volume(level) => PendingSoundOps { volume: Some(level), ..now },
        OpsPatch::Pitch(level) => PendingSoundOps { pitch: Some(level), ..now },
        OpsPatch::Paused(paused) => PendingSoundOps { paused: Some(paused), ..now },
    };
    let ghost before = ops@;
    ops.insert(id, next);
    assert(ops@ =~= patched_all(before, set![id], patch));
}

/// Make one change to what is to be done to the player of each of these sounds.
pub fn patch_all_ops(ops: &mut HashMap<u64, PendingSoundOps>, ids: &Vec<u64>, patch: OpsPatch)
    ensures
        final(ops)@ == patched_all(old(ops)@, ids@.to_set(), patch),
{
    let ghost before = ops@;
    assert(ops@ =~= patched_all(before, ids@.take(0).to_set(), patch));
    for i in 0..ids.len()
        invariant
            ops@ == patched_all(before, ids@.take(i as int).to_set(), patch),
    {
        patch_ops(ops, ids[i], patch);
        proof {
            lemma_take_to_set(ids@, i as int);
            let next = patched_all(before, ids@.take(i + 1).to_set(), patch);
            assert(ops@ =~= next);
        }
    }
    assert(ids@.take(ids@.len() as int) =~= ids@);
}

pub proof fn lemma_take_to_set(ids: Seq<u64>, i: int)
    requires
        0 <= i < ids.len(),
    ensures
        ids.take(i + 1).to_set() == ids.take(i).to_set().insert(ids[i]),
{
    let next = ids.take(i + 1);
    assert(next =~= ids.take(i).push(ids[i]));
    assert forall|id: u64| next.to_set().contains(id) <==> ids.take(i).to_set().insert(
        ids[i],
    ).contains(id) by {
        vstd::seq_lib::lemma_seq_contains_after_push(ids.take(i), ids[i], id);
    }
    assert(next.to_set() =~= ids.take(i).to_set().insert(ids[i]));
}

/// Stop each of these sounds that is playing.
pub fn stop_all(output: &mut AudioOutput, work: &mut PendingWork, ids: &Vec<u64>)
    ensures
        model(*final(output), *final(work)) == after_stops(
            model(*old(output), *old(work)),
            ids@.to_set(),
        ),
        old(work).stops@.is_prefix_of(final(work).stops@),
{
    let ghost start = model(*output, *work);
    let ghost listed = work.stops@;
    proof {
        let none = ids@.take(0).to_set();
        assert(none.intersect(start.playing.dom()) =~= Set::empty());
        assert forall|p: (SoundId, GodotNodeHandle)|
            start.stops.count(p) == after_stops(start, none).stops.count(p) by {
            lemma_players_count(start.playing, Set::empty(), p);
        }
        assert(start =~= after_stops(start, none));
    }
    for i in 0..ids.len()
        invariant
            start.playing.dom().finite(),
            model(*output, *work) == after_stops(start, ids@.take(i as int).to_set()),
            listed.is_prefix_of(work.stops@),
    {
        schedule_stop_sound(output, work, SoundId(ids[i]));
        proof {
            lemma_take_to_set(ids@, i as int);
            let done = ids@.take(i as int).to_set();
            law_stops_add_up(start, done, set![ids@[i as int]]);
            assert(done.union(set![ids@[i as int]]) =~= done.insert(ids@[i as int]));
        }
    }
    assert(ids@.take(ids@.len() as int) =~= ids@);
}

} // verus!
