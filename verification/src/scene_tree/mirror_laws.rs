//! What holds of the mirror across messages and batches.

use vstd::prelude::*;

use crate::ids::{Entity, InstanceId};
use crate::node_index::indexed;
use crate::scene_tree::mirror::{
    after_message, decorated, decorated_in, decorates, leaves_mirror, link_command, mirror_run, parent_of, protected,
    MirrorCommandView, MirrorInput, MirrorState, ObservedMessageView,
};

verus! {

/// The entity that a command is about.
pub open spec fn subject(command: MirrorCommandView) -> Entity {
    match command {
        MirrorCommandView::Refresh { entity, .. } => entity,
        MirrorCommandView::Decorate { entity, .. } => entity,
        MirrorCommandView::SetParent { entity, .. } => entity,
        MirrorCommandView::ClearParent { entity, .. } => entity,
        MirrorCommandView::Despawn { entity } => entity,
        MirrorCommandView::Strip { entity } => entity,
        MirrorCommandView::Rename { entity, .. } => entity,
    }
}

/// A message changes the entity of no node but its own, and takes back no command.
pub proof fn law_message_touches_only_its_node(
    input: MirrorInput,
    state: MirrorState,
    m: ObservedMessageView,
    other: InstanceId,
)
    requires
        other != m.message.node_id.id,
    ensures
        indexed(after_message(input, state, m).index, other) == indexed(state.index, other),
        state.commands.is_prefix_of(after_message(input, state, m).commands),
{
}

/// A node that is added again once its entity is decorated, before the batch or in it, gives the entity its handle, its name
/// and its place anew, and nothing else: no second decoration, no second connection of signals.
pub proof fn law_decorated_entity_is_only_refreshed(
    input: MirrorInput,
    state: MirrorState,
    m: ObservedMessageView,
    entity: Entity,
)
    requires
        m.message.message_type is NodeAdded,
        m.node.valid,
        indexed(state.index, m.message.node_id.id) == Some(entity),
        decorated(input.table, entity) || decorated_in(state.commands, entity),
    ensures
        after_message(input, state, m) == (MirrorState {
            commands: state.commands.push(
                MirrorCommandView::Refresh { entity, node: m.message.node_id, name: m.name() },
            ).push(link_command(state.index, entity, parent_of(input.context, m))),
            ..state
        }),
{
}

/// Removing a node that stays in the tree and adding it again keeps its entity, and destroys
/// nothing on the way.
pub proof fn law_moving_node_keeps_its_entity(
    input: MirrorInput,
    state: MirrorState,
    out: ObservedMessageView,
    back: ObservedMessageView,
)
    requires
        out.message.message_type is NodeRemoved,
        back.message.message_type is NodeAdded,
        out.message.node_id == back.message.node_id,
        !leaves_mirror(out),
        indexed(state.index, out.message.node_id.id) is Some,
    ensures
        after_message(input, state, out) == state,
        after_message(input, after_message(input, state, out), back).index == state.index,
        after_message(input, after_message(input, state, out), back).taken == state.taken,
{
    let end = after_message(input, state, back);
    assert(end.index =~= state.index);
}

/// A node that leaves the mirror is no longer indexed, and its entity gets exactly one command:
/// it is stripped where it is protected and the node has no parent any more, and despawned
/// otherwise.
pub proof fn law_leaving_node_is_forgotten(
    input: MirrorInput,
    state: MirrorState,
    m: ObservedMessageView,
    entity: Entity,
)
    requires
        m.message.message_type is NodeRemoved,
        leaves_mirror(m),
        indexed(state.index, m.message.node_id.id) == Some(entity),
    ensures
        indexed(after_message(input, state, m).index, m.message.node_id.id) is None,
        after_message(input, state, m).commands == state.commands.push(
            if protected(input.table, entity) && m.node.parent is None {
                MirrorCommandView::Strip { entity }
            } else {
                MirrorCommandView::Despawn { entity }
            },
        ),
{
}

/// A protected entity outlives its node: as long as no node of the batch moved into an excluded
/// place, no protected entity is despawned.
pub proof fn law_protected_entity_outlives_its_node(
    input: MirrorInput,
    index: Map<i64, Entity>,
    messages: Seq<ObservedMessageView>,
    n: nat,
)
    requires
        n <= messages.len(),
        forall|i: int|
            0 <= i < messages.len() ==> ((#[trigger] messages[i]).node.parent is Some
                ==> !messages[i].node.excluded),
    ensures
        forall|i: int|
            0 <= i < mirror_run(input, index, messages, n).commands.len() ==> ((
            #[trigger] mirror_run(input, index, messages, n).commands[i]) is Despawn
                ==> !protected(
                input.table,
                subject(mirror_run(input, index, messages, n).commands[i]),
            )),
    decreases n,
{
    if n > 0 {
        let k = (n - 1) as nat;
        let before = mirror_run(input, index, messages, k);
        let after = mirror_run(input, index, messages, n);
        law_protected_entity_outlives_its_node(input, index, messages, k);
        let m = messages[n - 1];
        assert forall|i: int|
            0 <= i < after.commands.len() && (#[trigger] after.commands[i]) is Despawn implies
            !protected(input.table, subject(after.commands[i])) by {
            if i < before.commands.len() {
                assert(after.commands[i] == before.commands[i]);
            }
        }
    }
}

/// No two nodes share an entity.
pub open spec fn one_to_one(index: Map<i64, Entity>) -> bool {
    forall|a: i64, b: i64|
        #![trigger index.contains_key(a), index.contains_key(b)]
        index.contains_key(a) && index.contains_key(b) && index[a] == index[b] ==> a == b
}

/// The entities that stand ready are distinct, and no node has one of them yet.
pub open spec fn fresh_is_fresh(fresh: Seq<Entity>, index: Map<i64, Entity>) -> bool {
    &&& fresh.no_duplicates()
    &&& forall|id: i64| #[trigger] index.contains_key(id) ==> !fresh.contains(index[id])
}

/// Entities from the first `n` that stand ready are the only ones of those that a node can have.
spec fn taken_in_order(fresh: Seq<Entity>, index: Map<i64, Entity>, n: nat) -> bool {
    forall|id: i64, i: int|
        #![trigger index.contains_key(id), fresh[i]]
        index.contains_key(id) && n <= i < fresh.len() ==> index[id] != fresh[i]
}

proof fn lemma_one_to_one(
    input: MirrorInput,
    index: Map<i64, Entity>,
    messages: Seq<ObservedMessageView>,
    n: nat,
)
    requires
        n <= messages.len(),
        one_to_one(index),
        fresh_is_fresh(input.fresh, index),
        mirror_run(input, index, messages, n).taken <= input.fresh.len(),
    ensures
        one_to_one(mirror_run(input, index, messages, n).index),
        taken_in_order(
            input.fresh,
            mirror_run(input, index, messages, n).index,
            mirror_run(input, index, messages, n).taken,
        ),
    decreases n,
{
    let after = mirror_run(input, index, messages, n);
    if n == 0 {
        assert forall|id: i64, i: int|
            #![trigger after.index.contains_key(id), input.fresh[i]]
            after.index.contains_key(id) && 0 <= i < input.fresh.len() implies after.index[id]
            != input.fresh[i] by {
            assert(input.fresh.contains(input.fresh[i]));
        }
    } else {
        let before = mirror_run(input, index, messages, (n - 1) as nat);
        lemma_one_to_one(input, index, messages, (n - 1) as nat);
        let m = messages[n - 1];
        let key = m.key();
        if after.index.contains_key(key) && !before.index.contains_key(key) {
            let e = input.fresh[before.taken as int];
            assert(after.index == before.index.insert(key, e));
            assert forall|a: i64, b: i64|
                #![trigger after.index.contains_key(a), after.index.contains_key(b)]
                after.index.contains_key(a) && after.index.contains_key(b) && after.index[a]
                    == after.index[b] implies a == b by {
                assert(a == key || before.index.contains_key(a));
                assert(b == key || before.index.contains_key(b));
            }
            assert forall|id: i64, i: int|
                #![trigger after.index.contains_key(id), input.fresh[i]]
                after.index.contains_key(id) && after.taken <= i < input.fresh.len() implies
                after.index[id] != input.fresh[i] by {
                assert(id == key || before.index.contains_key(id));
            }
        } else {
            assert forall|id: i64| #[trigger] after.index.contains_key(id) implies
                before.index.contains_key(id) && before.index[id] == after.index[id] by {}
        }
    }
}

/// Nodes and entities stay paired one to one through every batch.
pub proof fn law_index_stays_one_to_one(
    input: MirrorInput,
    index: Map<i64, Entity>,
    messages: Seq<ObservedMessageView>,
)
    requires
        one_to_one(index),
        fresh_is_fresh(input.fresh, index),
        mirror_run(input, index, messages, messages.len()).taken <= input.fresh.len(),
    ensures
        one_to_one(mirror_run(input, index, messages, messages.len()).index),
{
    lemma_one_to_one(input, index, messages, messages.len());
}

/// Whether no two of the commands decorate the same entity, and none decorates an entity that the
/// world says is decorated.
pub open spec fn decorates_each_once(
    input: MirrorInput,
    commands: Seq<MirrorCommandView>,
) -> bool {
    &&& forall|i: int|
        0 <= i < commands.len() && (#[trigger] commands[i]) is Decorate ==> !decorated(
            input.table,
            subject(commands[i]),
        )
    &&& forall|i: int, j: int|
        #![trigger commands[i], commands[j]]
        0 <= i < j < commands.len() && commands[i] is Decorate && commands[j] is Decorate
            ==> subject(commands[i]) != subject(commands[j])
}

/// None of the entities that still stand ready is decorated by the commands.
spec fn ready_is_bare(
    fresh: Seq<Entity>,
    commands: Seq<MirrorCommandView>,
    taken: nat,
) -> bool {
    forall|i: int| taken <= i < fresh.len() ==> !decorated_in(commands, #[trigger] fresh[i])
}

proof fn lemma_decorates_each_once(
    input: MirrorInput,
    index: Map<i64, Entity>,
    messages: Seq<ObservedMessageView>,
    n: nat,
)
    requires
        n <= messages.len(),
        fresh_is_fresh(input.fresh, index),
        forall|e: Entity| #[trigger] input.fresh.contains(e) ==> !decorated(input.table, e),
        mirror_run(input, index, messages, n).taken <= input.fresh.len(),
    ensures
        ({
            let end = mirror_run(input, index, messages, n);
            &&& decorates_each_once(input, end.commands)
            &&& ready_is_bare(input.fresh, end.commands, end.taken)
            &&& taken_in_order(input.fresh, end.index, end.taken)
        }),
    decreases n,
{
    let after = mirror_run(input, index, messages, n);
    if n == 0 {
        assert forall|id: i64, i: int|
            #![trigger after.index.contains_key(id), input.fresh[i]]
            after.index.contains_key(id) && 0 <= i < input.fresh.len() implies after.index[id]
            != input.fresh[i] by {
            assert(input.fresh.contains(input.fresh[i]));
        }
    } else {
        let before = mirror_run(input, index, messages, (n - 1) as nat);
        lemma_decorates_each_once(input, index, messages, (n - 1) as nat);
        let m = messages[n - 1];
        let key = m.key();
        let len = before.commands.len() as int;
        assert forall|id: i64, i: int|
            #![trigger after.index.contains_key(id), input.fresh[i]]
            after.index.contains_key(id) && after.taken <= i < input.fresh.len() implies
            after.index[id] != input.fresh[i] by {
            assert(id == key || before.index.contains_key(id));
            if before.index.contains_key(key) {
                assert(before.index[key] != input.fresh[i]);
            }
        }
        if before.taken < after.taken {
            assert(input.fresh.contains(input.fresh[before.taken as int]));
        }
        assert forall|i: int| after.taken <= i < input.fresh.len() implies !decorated_in(
            after.commands,
            #[trigger] input.fresh[i],
        ) by {
            if decorated_in(after.commands, input.fresh[i]) {
                let c = choose|c: int|
                    0 <= c < after.commands.len() && #[trigger] decorates(
                        after.commands[c],
                        input.fresh[i],
                    );
                if c < len {
                    assert(decorates(before.commands[c], input.fresh[i]));
                } else if before.index.contains_key(key) {
                    assert(before.index[key] != input.fresh[i]);
                }
            }
        }
        assert forall|i: int|
            0 <= i < after.commands.len() && (#[trigger] after.commands[i]) is Decorate implies
            !decorated(input.table, subject(after.commands[i])) by {
            if i < len {
                assert(after.commands[i] == before.commands[i]);
            }
        }
        assert forall|i: int, j: int|
            #![trigger after.commands[i], after.commands[j]]
            0 <= i < j < after.commands.len() && after.commands[i] is Decorate
                && after.commands[j] is Decorate implies subject(after.commands[i]) != subject(
            after.commands[j],
        ) by {
            assert(i < len);
            assert(after.commands[i] == before.commands[i]);
            if j < len {
                assert(after.commands[j] == before.commands[j]);
            } else {
                assert(decorates(before.commands[i], subject(before.commands[i])));
                assert(decorated_in(before.commands, subject(before.commands[i])));
            }
        }
    }
}

/// Nothing is decorated twice: neither what was decorated before the batch, nor, however often its
/// node is announced, what the batch has decorated itself.
pub proof fn law_nothing_is_decorated_twice(
    input: MirrorInput,
    index: Map<i64, Entity>,
    messages: Seq<ObservedMessageView>,
    n: nat,
)
    requires
        n <= messages.len(),
        fresh_is_fresh(input.fresh, index),
        forall|e: Entity| #[trigger] input.fresh.contains(e) ==> !decorated(input.table, e),
        mirror_run(input, index, messages, n).taken <= input.fresh.len(),
    ensures
        decorates_each_once(input, mirror_run(input, index, messages, n).commands),
{
    lemma_decorates_each_once(input, index, messages, n);
}

/// Whether an entity belongs to the batch: a node had it before, or it stood ready and was taken.
pub open spec fn known_entity(
    input: MirrorInput,
    index: Map<i64, Entity>,
    taken: nat,
    e: Entity,
) -> bool {
    index.contains_value(e) || exists|i: int| 0 <= i < taken && #[trigger] input.fresh[i] == e
}

/// Every command is about an entity that a node had before the batch or that the batch made, and
/// so is every entry of the index after it.
pub proof fn law_commands_stay_within_the_mirror(
    input: MirrorInput,
    index: Map<i64, Entity>,
    messages: Seq<ObservedMessageView>,
    n: nat,
)
    requires
        n <= messages.len(),
    ensures
        forall|i: int|
            0 <= i < mirror_run(input, index, messages, n).commands.len() ==> known_entity(
                input,
                index,
                mirror_run(input, index, messages, n).taken,
                subject(#[trigger] mirror_run(input, index, messages, n).commands[i]),
            ),
        forall|id: i64| #[trigger]
            mirror_run(input, index, messages, n).index.contains_key(id) ==> known_entity(
                input,
                index,
                mirror_run(input, index, messages, n).taken,
                mirror_run(input, index, messages, n).index[id],
            ),
    decreases n,
{
    let after = mirror_run(input, index, messages, n);
    if n == 0 {
        assert forall|id: i64| #[trigger] after.index.contains_key(id) implies known_entity(
            input,
            index,
            after.taken,
            after.index[id],
        ) by {
            assert(index.contains_value(index[id]));
        }
    } else {
        let before = mirror_run(input, index, messages, (n - 1) as nat);
        law_commands_stay_within_the_mirror(input, index, messages, (n - 1) as nat);
        let m = messages[n - 1];
        assert forall|e: Entity|
            known_entity(input, index, before.taken, e) implies #[trigger] known_entity(
            input,
            index,
            after.taken,
            e,
        ) by {
            if !index.contains_value(e) {
                let i = choose|i: int| 0 <= i < before.taken && #[trigger] input.fresh[i] == e;
                assert(0 <= i < after.taken && input.fresh[i] == e);
            }
        }
        if before.taken < after.taken {
            let e = input.fresh[before.taken as int];
            assert(known_entity(input, index, after.taken, e));
        }
        if before.index.contains_key(m.key()) {
            assert(known_entity(input, index, before.taken, before.index[m.key()]));
        }
        assert forall|i: int| 0 <= i < after.commands.len() implies known_entity(
            input,
            index,
            after.taken,
            subject(#[trigger] after.commands[i]),
        ) by {
            if i < before.commands.len() {
                assert(after.commands[i] == before.commands[i]);
                assert(known_entity(input, index, before.taken, subject(before.commands[i])));
            }
        }
        assert forall|id: i64| #[trigger] after.index.contains_key(id) implies known_entity(
            input,
            index,
            after.taken,
            after.index[id],
        ) by {
            if id != m.key() {
                assert(before.index.contains_key(id));
            }
        }
    }
}

} // verus!
