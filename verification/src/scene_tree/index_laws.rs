//! The index after a batch, once its commands were carried out and the component hooks have run.

use vstd::prelude::*;

use crate::ids::{Entity, GodotNodeHandle};
use crate::node_index::{
    carries, hides, index_after, indexed, is_tidy, law_hooks_note_what_happened,
    law_tracking_index_is_complete, mirrors, one_each, tracks, world_after, HandleEvent, IndexState,
};
use crate::scene_tree::mirror::{
    after_message, mirror_run, MirrorCommandView, MirrorInput, MirrorState, ObservedMessageView,
};

verus! {

/// What a command does to the node handle of its entity.
pub open spec fn handle_event(command: MirrorCommandView) -> Option<HandleEvent> {
    match command {
        MirrorCommandView::Refresh { entity, node, .. } => Some(
            HandleEvent::Attach { entity, handle: node },
        ),
        MirrorCommandView::Decorate { entity, node, .. } => Some(
            HandleEvent::Attach { entity, handle: node },
        ),
        MirrorCommandView::Despawn { entity } => Some(HandleEvent::Detach { entity }),
        MirrorCommandView::Strip { entity } => Some(HandleEvent::Detach { entity }),
        MirrorCommandView::SetParent { .. } => None,
        MirrorCommandView::ClearParent { .. } => None,
        MirrorCommandView::Rename { .. } => None,
    }
}

/// The handles that entities carry after a command.
pub open spec fn world_after_command(
    world: Map<Entity, GodotNodeHandle>,
    command: MirrorCommandView,
) -> Map<Entity, GodotNodeHandle> {
    match handle_event(command) {
        Some(event) => world_after(world, event),
        None => world,
    }
}

/// The index after the hooks that a command fires.
pub open spec fn index_after_command(
    index: IndexState,
    world: Map<Entity, GodotNodeHandle>,
    command: MirrorCommandView,
) -> IndexState {
    match handle_event(command) {
        Some(event) => index_after(index, world, event),
        None => index,
    }
}

/// The handles that entities carry after commands, in order.
pub open spec fn world_after_commands(
    world: Map<Entity, GodotNodeHandle>,
    commands: Seq<MirrorCommandView>,
) -> Map<Entity, GodotNodeHandle>
    decreases commands.len(),
{
    if commands.len() == 0 {
        world
    } else {
        world_after_command(world_after_commands(world, commands.drop_last()), commands.last())
    }
}

/// The index after the hooks that commands fire, in order.
pub open spec fn index_after_commands(
    index: IndexState,
    world: Map<Entity, GodotNodeHandle>,
    commands: Seq<MirrorCommandView>,
) -> IndexState
    decreases commands.len(),
{
    if commands.len() == 0 {
        index
    } else {
        let earlier = commands.drop_last();
        index_after_command(
            index_after_commands(index, world, earlier),
            world_after_commands(world, earlier),
            commands.last(),
        )
    }
}

/// Whether two indexes say the same of a node.
spec fn same_at(a: Map<i64, Entity>, b: Map<i64, Entity>, id: i64) -> bool {
    &&& a.contains_key(id) == b.contains_key(id)
    &&& a.contains_key(id) ==> a[id] == b[id]
}

proof fn lemma_push_command(
    index: IndexState,
    world: Map<Entity, GodotNodeHandle>,
    commands: Seq<MirrorCommandView>,
    command: MirrorCommandView,
)
    ensures
        world_after_commands(world, commands.push(command)) == world_after_command(
            world_after_commands(world, commands),
            command,
        ),
        index_after_commands(index, world, commands.push(command)) == index_after_command(
            index_after_commands(index, world, commands),
            world_after_commands(world, commands),
            command,
        ),
{
    assert(commands.push(command).drop_last() =~= commands);
}

/// None of the entities that still stand ready carries a handle.
spec fn ready(world: Map<Entity, GodotNodeHandle>, fresh: Seq<Entity>, taken: nat) -> bool {
    forall|i: int| taken <= i < fresh.len() ==> !world.contains_key(#[trigger] fresh[i])
}

/// What the index knows in the middle of a batch, when `behind` stood behind its nodes before.
pub open spec fn index_so_far(state: MirrorState, behind: Map<i64, Seq<Entity>>) -> IndexState {
    IndexState { named: state.index, behind }
}

/// Whether the index knows in the middle of a batch who carries what once the commands so far are
/// carried out.
spec fn keeps_up(
    behind: Map<i64, Seq<Entity>>,
    world: Map<Entity, GodotNodeHandle>,
    fresh: Seq<Entity>,
    state: MirrorState,
) -> bool {
    let w = world_after_commands(world, state.commands);
    let now = index_so_far(state, behind);
    &&& forall|id: i64, e: Entity| #[trigger] now.knows(id, e) <==> carries(w, e, id)
    &&& is_tidy(now)
    &&& ready(w, fresh, state.taken)
}

/// Whether the hooks of the commands so far, when they start from `goal`, know of each entity and
/// node either what the state does or still what they started with.
spec fn is_between(
    goal: IndexState,
    behind: Map<i64, Seq<Entity>>,
    world: Map<Entity, GodotNodeHandle>,
    state: MirrorState,
) -> bool {
    let seen = index_after_commands(goal, world, state.commands);
    let now = index_so_far(state, behind);
    &&& forall|id: i64, e: Entity|
        #[trigger] seen.knows(id, e) == now.knows(id, e) || seen.knows(id, e) == goal.knows(id, e)
    &&& forall|id: i64| #[trigger] hides(seen, id) ==> hides(goal, id) && !hides(now, id)
    &&& forall|id: i64| #[trigger]
        state.index.contains_key(id) ==> same_at(seen.named, state.index, id) || same_at(
            seen.named,
            goal.named,
            id,
        )
    &&& is_tidy(seen)
}

/// Where the hooks have kept up with the messages so far, they keep up with one more.
proof fn lemma_message_keeps_up(
    input: MirrorInput,
    behind: Map<i64, Seq<Entity>>,
    goal: IndexState,
    world: Map<Entity, GodotNodeHandle>,
    state: MirrorState,
    m: ObservedMessageView,
)
    requires
        input.fresh.no_duplicates(),
        after_message(input, state, m).taken <= input.fresh.len(),
        keeps_up(behind, world, input.fresh, state),
        is_between(goal, behind, world, state),
    ensures
        keeps_up(behind, world, input.fresh, after_message(input, state, m)),
        is_between(goal, behind, world, after_message(input, state, m)),
{
    let next = after_message(input, state, m);
    let w = world_after_commands(world, state.commands);
    let n = state.commands.len() as int;
    if next.commands.len() > n {
        let first = next.commands[n];
        lemma_push_command(goal, world, state.commands, first);
        if next.commands.len() == n + 1 {
            assert(next.commands =~= state.commands.push(first));
        } else {
            let second = next.commands[n + 1];
            lemma_push_command(goal, world, state.commands.push(first), second);
            assert(next.commands =~= state.commands.push(first).push(second));
        }
        if let Some(event) = handle_event(first) {
            let now = index_so_far(state, behind);
            let then = index_so_far(next, behind);
            let key = m.key();
            let seen = index_after_commands(goal, world, state.commands);
            let after = index_after(seen, w, event);
            if let Some(entity) = indexed(state.index, m.message.node_id.id) {
                assert(now.knows(key, entity));
            }
            law_hooks_note_what_happened(seen, w, event);
            assert(forall|id: i64| #[trigger] then.behind_at(id) == now.behind_at(id));
            assert forall|id: i64, e: Entity| #[trigger]
                then.knows(id, e) <==> carries(world_after(w, event), e, id) by {
                assert(now.knows(id, e) <==> carries(w, e, id));
                assert(then.behind_at(id) == now.behind_at(id));
            }
            assert forall|id: i64| #[trigger]
                then.named.contains_key(id) implies !then.behind_at(id).contains(
                then.named[id],
            ) by {
                assert(then.behind_at(id) == now.behind_at(id));
                if now.named.contains_key(id) {
                    assert(!now.behind_at(id).contains(now.named[id]));
                }
                assert(now.knows(id, then.named[id]) <==> carries(w, then.named[id], id));
            }
            assert forall|id: i64, e: Entity|
                #[trigger] after.knows(id, e) == then.knows(id, e) || after.knows(id, e)
                    == goal.knows(id, e) by {
                assert(seen.knows(id, e) == now.knows(id, e) || seen.knows(id, e) == goal.knows(
                    id,
                    e,
                ));
                assert(now.knows(id, e) <==> carries(w, e, id));
                assert(then.knows(id, e) <==> carries(world_after(w, event), e, id));
            }
            assert forall|id: i64| #[trigger] hides(after, id) implies hides(goal, id) && !hides(
                then,
                id,
            ) by {
                assert(after.behind_at(id) == after.behind_at(id));
                assert(hides(seen, id) ==> hides(goal, id) && !hides(now, id));
            }
            assert forall|id: i64| #[trigger] next.index.contains_key(id) implies same_at(
                after.named,
                next.index,
                id,
            ) || same_at(after.named, goal.named, id) by {
                assert(after.behind_at(id) == after.behind_at(id));
                if id != key {
                    assert(state.index.contains_key(id));
                }
            }
        }
    }
}

proof fn lemma_batch_keeps_up(
    input: MirrorInput,
    index: IndexState,
    goal: IndexState,
    world: Map<Entity, GodotNodeHandle>,
    messages: Seq<ObservedMessageView>,
    n: nat,
)
    requires
        n <= messages.len(),
        tracks(index, world),
        is_tidy(goal),
        input.fresh.no_duplicates(),
        ready(world, input.fresh, 0),
        mirror_run(input, index.named, messages, n).taken <= input.fresh.len(),
    ensures
        keeps_up(index.behind, world, input.fresh, mirror_run(input, index.named, messages, n)),
        is_between(goal, index.behind, world, mirror_run(input, index.named, messages, n)),
    decreases n,
{
    if n > 0 {
        let k = (n - 1) as nat;
        lemma_batch_keeps_up(input, index, goal, world, messages, k);
        lemma_message_keeps_up(
            input,
            index.behind,
            goal,
            world,
            mirror_run(input, index.named, messages, k),
            messages[n - 1],
        );
    } else {
        assert(index_so_far(mirror_run(input, index.named, messages, 0), index.behind) =~= index);
    }
}

/// An index that knows every carrier has nobody behind a node where each node has one entity.
proof fn lemma_nobody_behind(index: IndexState, world: Map<Entity, GodotNodeHandle>, id: i64)
    requires
        tracks(index, world),
        one_each(world),
    ensures
        index.behind_at(id).len() == 0,
{
    if index.behind_at(id).len() > 0 {
        let other = index.behind_at(id)[0];
        assert(!hides(index, id));
        assert(index.behind_at(id).contains(other));
        assert(index.knows(id, other));
        assert(index.knows(id, index.named[id]));
    }
}

/// The index that a batch leaves behind is the index that stays: when the commands of the batch are
/// carried out afterwards, the hooks that they fire leave each entry of it as it is. The index then
/// knows every entity that carries a handle, and no other: it lists each node that is carried, under
/// an entity that carries it, and nothing else. Where each node had one entity, each has one
/// afterwards, and the entries of the batch are all there are.
pub proof fn law_index_outlasts_the_commands(
    input: MirrorInput,
    index: IndexState,
    world: Map<Entity, GodotNodeHandle>,
    messages: Seq<ObservedMessageView>,
)
    requires
        tracks(index, world),
        input.fresh.no_duplicates(),
        forall|e: Entity| #[trigger] input.fresh.contains(e) ==> !world.contains_key(e),
        mirror_run(input, index.named, messages, messages.len()).taken <= input.fresh.len(),
    ensures
        ({
            let end = mirror_run(input, index.named, messages, messages.len());
            let after = index_after_commands(
                index_so_far(end, index.behind),
                world,
                end.commands,
            );
            let w = world_after_commands(world, end.commands);
            &&& tracks(after, w)
            &&& mirrors(after.named, w)
            &&& forall|id: i64| #[trigger]
                end.index.contains_key(id) ==> after.named.contains_key(id) && after.named[id]
                    == end.index[id]
            &&& one_each(world) ==> after.named == end.index && one_each(w)
        }),
{
    assert forall|i: int| 0 <= i < input.fresh.len() implies !world.contains_key(
        #[trigger] input.fresh[i],
    ) by {
        assert(input.fresh.contains(input.fresh[i]));
    }
    let end = mirror_run(input, index.named, messages, messages.len());
    let goal = index_so_far(end, index.behind);
    let w = world_after_commands(world, end.commands);
    lemma_batch_keeps_up(input, index, index, world, messages, messages.len());
    lemma_batch_keeps_up(input, index, goal, world, messages, messages.len());
    let after = index_after_commands(goal, world, end.commands);
    assert forall|id: i64, e: Entity| #[trigger] after.knows(id, e) <==> carries(w, e, id) by {
        assert(after.knows(id, e) == goal.knows(id, e));
    }
    assert forall|id: i64| !#[trigger] hides(after, id) by {
        assert(hides(after, id) ==> hides(goal, id) && !hides(goal, id));
    }
    law_tracking_index_is_complete(after, w);
    assert forall|id: i64| #[trigger] end.index.contains_key(id) implies after.named.contains_key(
        id,
    ) && after.named[id] == end.index[id] by {
        assert(same_at(after.named, end.index, id));
    }
    if one_each(world) {
        assert forall|id: i64| #[trigger] goal.behind_at(id).len() == 0 by {
            lemma_nobody_behind(index, world, id);
            assert(goal.behind_at(id) == index.behind_at(id));
        }
        assert forall|id: i64| #[trigger] after.named.contains_key(
            id,
        ) implies end.index.contains_key(id) by {
            assert(after.knows(id, after.named[id]));
            assert(goal.knows(id, after.named[id]));
            assert(goal.behind_at(id).len() == 0);
        }
        assert(after.named =~= end.index);
        assert forall|a: Entity, b: Entity|
            #![trigger w.contains_key(a), w.contains_key(b)]
            w.contains_key(a) && w.contains_key(b) && w[a].id == w[b].id implies a == b by {
            let id = w[a].id.value;
            assert(carries(w, a, id) && carries(w, b, id));
            assert(goal.knows(id, a) && goal.knows(id, b));
            assert(goal.behind_at(id).len() == 0);
        }
    }
}

} // verus!
