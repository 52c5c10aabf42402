//! What each message of a batch comes to, said of the message and the batch before and after it.

use vstd::prelude::*;

use crate::ids::{Entity, InstanceId};
use crate::scene_tree::collision::{law_kind_tells_areas, law_mask_tells_signals, ColliderKind};
use crate::scene_tree::message::{SceneTreeMessage, SceneTreeMessageType};
use crate::scene_tree::mirror::{
    commands_view, decorated_in, decorates, demand, keys_run, law_demand_is_what_is_taken,
    mirror_run, names_known, observed, only_renames, MirrorCommand, MirrorCommandView, MirrorInput,
    NodeObservation, ObservedMessage, ObservedMessageView,
};

verus! {

/// Nothing is lost or changed on the way into a model: a message shows every field that it has.
pub proof fn law_message_shows_its_fields(message: SceneTreeMessage, i: int)
    ensures
        message@.node_id == message.node_id,
        message@.message_type == message.message_type,
        message@.parent_id == message.parent_id,
        message@.collision_mask == message.collision_mask,
        match message.node_type {
            Some(text) => message@.node_type == Some(text@),
            None => message@.node_type is None,
        },
        match message.node_name {
            Some(text) => message@.node_name == Some(text@),
            None => message@.node_name is None,
        },
        match message.groups {
            Some(groups) => {
                &&& message@.groups is Some
                &&& message@.groups->Some_0.len() == groups@.len()
                &&& 0 <= i < groups@.len() ==> message@.groups->Some_0[i] == groups@[i]@
            },
            None => message@.groups is None,
        },
{
}

/// What the engine says of a node is shown field by field.
pub proof fn law_observation_shows_its_fields(node: NodeObservation, i: int)
    ensures
        node@.valid == node.valid,
        node@.name == node.name@,
        node@.signals == node.signals,
        node@.parent == node.parent,
        node@.excluded == node.excluded,
        node@.class_hierarchy.len() == node.class_hierarchy@.len(),
        0 <= i < node.class_hierarchy@.len() ==> node@.class_hierarchy[i]
            == node.class_hierarchy@[i]@,
        node@.groups.len() == node.groups@.len(),
        0 <= i < node.groups@.len() ==> node@.groups[i] == node.groups@[i]@,
{
}

/// A list of observed messages is shown message by message.
pub proof fn law_batch_shows_its_messages(list: Seq<ObservedMessage>, i: int)
    ensures
        observed(list).len() == list.len(),
        0 <= i < list.len() ==> observed(list)[i].message == list[i].message@
            && observed(list)[i].node == list[i].node@,
{
}

/// A list of commands is shown command by command, each as what it is, with all that it says.
pub proof fn law_commands_show_what_they_say(list: Seq<MirrorCommand>, i: int, k: int)
    requires
        0 <= i < list.len(),
    ensures
        commands_view(list).len() == list.len(),
        match list[i] {
            MirrorCommand::Refresh { entity, node, name } => commands_view(list)[i]
                == (MirrorCommandView::Refresh { entity, node, name: name@ }),
            MirrorCommand::Decorate { entity, node, name, groups, class_hierarchy } => {
                &&& commands_view(list)[i] matches MirrorCommandView::Decorate {
                    entity: e,
                    node: n,
                    name: text,
                    groups: g,
                    class_hierarchy: c,
                }
                &&& e == entity && n == node && text == name@ && g == groups@
                &&& c.len() == class_hierarchy@.len()
                &&& 0 <= k < c.len() ==> c[k] == class_hierarchy@[k]@
            },
            MirrorCommand::SetParent { entity, parent } => commands_view(list)[i]
                == (MirrorCommandView::SetParent { entity, parent }),
            MirrorCommand::ClearParent { entity, missing } => commands_view(list)[i]
                == (MirrorCommandView::ClearParent { entity, missing }),
            MirrorCommand::Despawn { entity } => commands_view(list)[i]
                == (MirrorCommandView::Despawn { entity }),
            MirrorCommand::Strip { entity } => commands_view(list)[i]
                == (MirrorCommandView::Strip { entity }),
            MirrorCommand::Rename { entity, name } => commands_view(list)[i]
                == (MirrorCommandView::Rename { entity, name: name@ }),
        },
{
}

/// A batch starts from the index as it is, with no command, no body and no entity taken.
pub proof fn law_batch_starts_with_nothing(
    input: MirrorInput,
    index: Map<i64, Entity>,
    messages: Seq<ObservedMessageView>,
)
    ensures
        mirror_run(input, index, messages, 0).index == index,
        mirror_run(input, index, messages, 0).commands.len() == 0,
        mirror_run(input, index, messages, 0).bodies.len() == 0,
        mirror_run(input, index, messages, 0).taken == 0,
{
}

/// What a message adds stays: the commands and bodies of the messages so far are the first ones of
/// the whole batch.
pub proof fn law_batch_takes_nothing_back(
    input: MirrorInput,
    index: Map<i64, Entity>,
    messages: Seq<ObservedMessageView>,
    k: nat,
    n: nat,
)
    requires
        k <= n,
    ensures
        mirror_run(input, index, messages, k).commands.is_prefix_of(
            mirror_run(input, index, messages, n).commands,
        ),
        mirror_run(input, index, messages, k).bodies.is_prefix_of(
            mirror_run(input, index, messages, n).bodies,
        ),
        mirror_run(input, index, messages, k).taken <= mirror_run(input, index, messages, n).taken,
    decreases n,
{
    if k < n {
        law_batch_takes_nothing_back(input, index, messages, k, (n - 1) as nat);
    }
}

/// A message leaves the entity of every node but its own.
pub proof fn law_other_nodes_keep_their_entities(
    input: MirrorInput,
    index: Map<i64, Entity>,
    messages: Seq<ObservedMessageView>,
    n: nat,
    id: i64,
)
    requires
        id != messages[n as int].message.node_id.id.value,
    ensures
        ({
            let before = mirror_run(input, index, messages, n).index;
            let after = mirror_run(input, index, messages, n + 1).index;
            &&& after.contains_key(id) <==> before.contains_key(id)
            &&& after.contains_key(id) ==> after[id] == before[id]
        }),
{
}

/// A node that is added while it exists has an entity then: the one that it had, or the next of those
/// that stand ready, which is taken then and only then.
pub proof fn law_added_node_has_an_entity(
    input: MirrorInput,
    index: Map<i64, Entity>,
    messages: Seq<ObservedMessageView>,
    n: nat,
)
    requires
        messages[n as int].message.message_type == SceneTreeMessageType::NodeAdded,
        messages[n as int].node.valid,
    ensures
        ({
            let before = mirror_run(input, index, messages, n);
            let after = mirror_run(input, index, messages, n + 1);
            let id = messages[n as int].message.node_id.id.value;
            &&& after.index.contains_key(id)
            &&& before.index.contains_key(id) ==> after.index[id] == before.index[id] && after.taken
                == before.taken
            &&& !before.index.contains_key(id) ==> after.index[id]
                == input.fresh[before.taken as int] && after.taken == before.taken + 1
        }),
{
}

/// The last of the two commands that a node gets when it is added, for the first time or again, puts
/// its entity where the node is. The parent is the one in the message, or, if the message has none,
/// the one that the engine gives. Where it is not the root of the scene and is indexed, the entity is
/// put below the parent's; else, and only then, it is put below none, and a parent that is not
/// indexed is named.
pub proof fn law_added_node_is_put_below_its_parent(
    input: MirrorInput,
    index: Map<i64, Entity>,
    messages: Seq<ObservedMessageView>,
    n: nat,
)
    requires
        messages[n as int].message.message_type == SceneTreeMessageType::NodeAdded,
        messages[n as int].node.valid,
    ensures
        ({
            let m = messages[n as int];
            let before = mirror_run(input, index, messages, n);
            let after = mirror_run(input, index, messages, n + 1);
            let own = after.index[m.message.node_id.id.value];
            let named: Option<InstanceId> = if m.message.parent_id is Some {
                m.message.parent_id
            } else {
                m.node.parent
            };
            &&& after.commands.len() == before.commands.len() + 2
            &&& forall|p: InstanceId|
                named == Some(p) && p.value != input.context.scene_root.value
                    && #[trigger] after.index.contains_key(p.value) ==> after.commands.last()
                    == (MirrorCommandView::SetParent { entity: own, parent: after.index[p.value] })
            &&& forall|p: InstanceId|
                named == Some(p) && p.value != input.context.scene_root.value
                    && !#[trigger] after.index.contains_key(p.value) ==> after.commands.last()
                    == (MirrorCommandView::ClearParent { entity: own, missing: Some(p) })
            &&& named is None || named == Some(input.context.scene_root) ==> after.commands.last()
                == (MirrorCommandView::ClearParent { entity: own, missing: None })
        }),
{
    let m = messages[n as int];
    let root = input.context.scene_root;
    let named: Option<InstanceId> = if m.message.parent_id is Some {
        m.message.parent_id
    } else {
        m.node.parent
    };
    if let Some(p) = named {
        assert(p.value == root.value ==> p == root);
    }
}

/// Whether an entity has been decorated by now: the world says so, or a command of the batch does it.
pub open spec fn is_decorated_by_now(
    input: MirrorInput,
    commands: Seq<MirrorCommandView>,
    e: Entity,
) -> bool {
    ||| input.table.contains_key(e.bits) && input.table[e.bits].decorated
    ||| exists|i: int|
        0 <= i < commands.len() && (#[trigger] commands[i] matches MirrorCommandView::Decorate {
            entity,
            ..
        } && entity == e)
}

proof fn lemma_decorated_by_now(input: MirrorInput, commands: Seq<MirrorCommandView>, e: Entity)
    ensures
        is_decorated_by_now(input, commands, e) <==> (input.table.contains_key(e.bits)
            && input.table[e.bits].decorated) || decorated_in(commands, e),
{
    if decorated_in(commands, e) {
        let i = choose|i: int| 0 <= i < commands.len() && #[trigger] decorates(commands[i], e);
        assert(commands[i] matches MirrorCommandView::Decorate { entity, .. } && entity == e);
    }
    if exists|i: int|
        0 <= i < commands.len() && (#[trigger] commands[i] matches MirrorCommandView::Decorate {
            entity,
            ..
        } && entity == e) {
        let i = choose|i: int|
            0 <= i < commands.len() && (#[trigger] commands[i] matches MirrorCommandView::Decorate {
                entity,
                ..
            } && entity == e);
        assert(decorates(commands[i], e));
    }
}

/// The first of the two commands that a node gets when it is added: its entity gets the node's handle
/// and the node's name, which is the one in the message, or, if the message has none, the one that the
/// engine gives. An entity that is not decorated yet is decorated with that, with the groups in the
/// message or else those that the engine gives, and with the chain of classes that the engine gives;
/// one that is decorated gets nothing else.
pub proof fn law_added_node_is_decorated_once(
    input: MirrorInput,
    index: Map<i64, Entity>,
    messages: Seq<ObservedMessageView>,
    n: nat,
)
    requires
        messages[n as int].message.message_type == SceneTreeMessageType::NodeAdded,
        messages[n as int].node.valid,
    ensures
        ({
            let m = messages[n as int];
            let id = m.message.node_id.id.value;
            let before = mirror_run(input, index, messages, n);
            let after = mirror_run(input, index, messages, n + 1);
            let own = after.index[id];
            let first = after.commands[before.commands.len() as int];
            let done = before.index.contains_key(id) && is_decorated_by_now(
                input,
                before.commands,
                own,
            );
            &&& done ==> {
                &&& first matches MirrorCommandView::Refresh { entity, node, name }
                &&& entity == own
                &&& node == m.message.node_id
                &&& m.message.node_name is Some ==> name == m.message.node_name->Some_0
                &&& m.message.node_name is None ==> name == m.node.name
            }
            &&& !done ==> {
                &&& first matches MirrorCommandView::Decorate {
                    entity,
                    node,
                    name,
                    groups,
                    class_hierarchy,
                }
                &&& entity == own
                &&& node == m.message.node_id
                &&& m.message.node_name is Some ==> name == m.message.node_name->Some_0
                &&& m.message.node_name is None ==> name == m.node.name
                &&& m.message.groups is Some ==> groups == m.message.groups->Some_0
                &&& m.message.groups is None ==> groups == m.node.groups
                &&& class_hierarchy == m.node.class_hierarchy
            }
        }),
{
    let m = messages[n as int];
    let id = m.message.node_id.id.value;
    let before = mirror_run(input, index, messages, n);
    lemma_decorated_by_now(input, before.commands, before.index[id]);
}

/// A node that gets decorated is among the collision bodies of the batch just when there is a
/// collision watcher and it can report that a contact began. If the message has no mask, that is
/// asked of the node's own signals, and the mask of the body has the bit of each collision signal that
/// the node has, and no other bit. If it has one, that mask counts.
pub proof fn law_decorated_body_is_connected(
    input: MirrorInput,
    index: Map<i64, Entity>,
    messages: Seq<ObservedMessageView>,
    n: nat,
)
    requires
        messages[n as int].message.message_type == SceneTreeMessageType::NodeAdded,
        messages[n as int].node.valid,
        ({
            let before = mirror_run(input, index, messages, n);
            let id = messages[n as int].message.node_id.id.value;
            !(before.index.contains_key(id) && is_decorated_by_now(
                input,
                before.commands,
                before.index[id],
            ))
        }),
    ensures
        ({
            let m = messages[n as int];
            let signals = m.node.signals;
            let before = mirror_run(input, index, messages, n).bodies;
            let after = mirror_run(input, index, messages, n + 1).bodies;
            let body = after[before.len() as int];
            let reports = match m.message.collision_mask {
                Some(mask) => mask & 1 != 0 || mask & 4 != 0,
                None => signals.body_entered || signals.area_entered,
            };
            &&& !(input.context.collision_watcher && reports) ==> after == before
            &&& input.context.collision_watcher && reports ==> {
                &&& after.len() == before.len() + 1
                &&& before.is_prefix_of(after)
                &&& body.node_id == m.message.node_id.id
                &&& m.message.collision_mask is Some ==> body.mask
                    == m.message.collision_mask->Some_0
                &&& m.message.collision_mask is None ==> {
                    &&& (body.mask & 1 != 0) == signals.body_entered
                    &&& (body.mask & 2 != 0) == signals.body_exited
                    &&& (body.mask & 4 != 0) == signals.area_entered
                    &&& (body.mask & 8 != 0) == signals.area_exited
                    &&& body.mask < 16
                }
                &&& body.kind == ColliderKind::Area2D <==> m.node.class_hierarchy.contains(
                    "Area2D"@,
                )
                &&& body.kind == ColliderKind::Area3D <==> m.node.class_hierarchy.contains(
                    "Area3D"@,
                ) && !m.node.class_hierarchy.contains("Area2D"@)
            }
        }),
{
    let m = messages[n as int];
    let id = m.message.node_id.id.value;
    let before = mirror_run(input, index, messages, n);
    lemma_decorated_by_now(input, before.commands, before.index[id]);
    law_mask_tells_signals(m.node.signals);
    law_kind_tells_areas(m.node.class_hierarchy);
}

/// A message that decorates nothing adds no collision body: neither one for a node whose entity is
/// decorated already, nor one that says that a node left or has a new name.
pub proof fn law_nothing_else_is_connected(
    input: MirrorInput,
    index: Map<i64, Entity>,
    messages: Seq<ObservedMessageView>,
    n: nat,
)
    requires
        ({
            let m = messages[n as int];
            let before = mirror_run(input, index, messages, n);
            let id = m.message.node_id.id.value;
            ||| m.message.message_type != SceneTreeMessageType::NodeAdded
            ||| !m.node.valid
            ||| before.index.contains_key(id) && is_decorated_by_now(
                input,
                before.commands,
                before.index[id],
            )
        }),
    ensures
        mirror_run(input, index, messages, n + 1).bodies == mirror_run(
            input,
            index,
            messages,
            n,
        ).bodies,
{
    let m = messages[n as int];
    let id = m.message.node_id.id.value;
    let before = mirror_run(input, index, messages, n);
    lemma_decorated_by_now(input, before.commands, before.index[id]);
}

/// A node that is gone again by the time its coming is processed changes nothing.
pub proof fn law_vanished_node_is_passed_over(
    input: MirrorInput,
    index: Map<i64, Entity>,
    messages: Seq<ObservedMessageView>,
    n: nat,
)
    requires
        messages[n as int].message.message_type == SceneTreeMessageType::NodeAdded,
        !messages[n as int].node.valid,
    ensures
        mirror_run(input, index, messages, n + 1) == mirror_run(input, index, messages, n),
{
}

/// A node that left its place is out of the mirror if it has no parent any more or is excluded where
/// it is now: it is no longer indexed, and its entity gets one command. It is despawned, but for a
/// protected one whose node has no parent any more: that is stripped. If the node has a parent and is
/// not excluded, or has no entity, nothing happens.
pub proof fn law_removed_node_leaves_the_mirror(
    input: MirrorInput,
    index: Map<i64, Entity>,
    messages: Seq<ObservedMessageView>,
    n: nat,
)
    requires
        messages[n as int].message.message_type == SceneTreeMessageType::NodeRemoved,
    ensures
        ({
            let m = messages[n as int];
            let id = m.message.node_id.id.value;
            let before = mirror_run(input, index, messages, n);
            let after = mirror_run(input, index, messages, n + 1);
            let own = before.index[id];
            let is_protected = input.table.contains_key(own.bits)
                && input.table[own.bits].protected;
            let leaves = before.index.contains_key(id) && (m.node.parent is None
                || m.node.excluded);
            &&& after.taken == before.taken
            &&& after.bodies == before.bodies
            &&& !leaves ==> after == before
            &&& leaves ==> {
                &&& !after.index.contains_key(id)
                &&& after.commands.len() == before.commands.len() + 1
                &&& m.node.parent is None && is_protected ==> after.commands.last()
                    == (MirrorCommandView::Strip { entity: own })
                &&& m.node.parent is Some || !is_protected ==> after.commands.last()
                    == (MirrorCommandView::Despawn { entity: own })
            }
        }),
{
}

/// A node with a new name gives its entity that name, the one in the message, or, if the message has
/// none, the one that the engine gives. Nothing else changes, and without an entity nothing does.
pub proof fn law_renamed_node_renames_its_entity(
    input: MirrorInput,
    index: Map<i64, Entity>,
    messages: Seq<ObservedMessageView>,
    n: nat,
)
    requires
        messages[n as int].message.message_type == SceneTreeMessageType::NodeRenamed,
    ensures
        ({
            let m = messages[n as int];
            let id = m.message.node_id.id.value;
            let before = mirror_run(input, index, messages, n);
            let after = mirror_run(input, index, messages, n + 1);
            &&& after.index == before.index
            &&& after.bodies == before.bodies
            &&& after.taken == before.taken
            &&& !before.index.contains_key(id) ==> after.commands == before.commands
            &&& before.index.contains_key(id) ==> {
                &&& after.commands.len() == before.commands.len() + 1
                &&& after.commands.last() matches MirrorCommandView::Rename { entity, name }
                &&& entity == before.index[id]
                &&& m.message.node_name is Some ==> name == m.message.node_name->Some_0
                &&& m.message.node_name is None ==> name == m.node.name
            }
        }),
{
}

/// How many entities have to stand ready is how many nodes are added, while they exist, that have no
/// entity at that point of the batch: each such message asks for one more, and no other message for
/// any.
pub proof fn law_demand_counts_new_nodes(
    input: MirrorInput,
    index: Map<i64, Entity>,
    messages: Seq<ObservedMessageView>,
    n: nat,
)
    ensures
        demand(index.dom(), messages, 0) == 0,
        demand(index.dom(), messages, n + 1) == demand(index.dom(), messages, n) + (if
        messages[n as int].message.message_type == SceneTreeMessageType::NodeAdded
            && messages[n as int].node.valid && !mirror_run(
            input,
            index,
            messages,
            n,
        ).index.contains_key(messages[n as int].message.node_id.id.value) {
            1int
        } else {
            0
        }),
{
    law_demand_is_what_is_taken(input, index, messages, n);
}

/// A batch gives no unknown name just when every node that has an entity at the point where it gets a
/// new name either still exists then or has the name in the message.
pub proof fn law_names_are_known_where_they_are_given(
    input: MirrorInput,
    index: Map<i64, Entity>,
    messages: Seq<ObservedMessageView>,
)
    ensures
        names_known(index.dom(), messages, messages.len()) <==> forall|i: int|
            0 <= i < messages.len() && (#[trigger] messages[i]).message.message_type
                == SceneTreeMessageType::NodeRenamed && mirror_run(
                input,
                index,
                messages,
                i as nat,
            ).index.contains_key(messages[i].message.node_id.id.value) ==> messages[i].node.valid
                || messages[i].message.node_name is Some,
{
    assert forall|i: int| 0 <= i < messages.len() implies mirror_run(
        input,
        index,
        messages,
        i as nat,
    ).index.dom() == #[trigger] keys_run(index.dom(), messages, i as nat) by {
        law_demand_is_what_is_taken(input, index, messages, i as nat);
    }
    if names_known(index.dom(), messages, messages.len()) {
        assert forall|i: int|
            0 <= i < messages.len() && (#[trigger] messages[i]).message.message_type
                == SceneTreeMessageType::NodeRenamed && mirror_run(
                input,
                index,
                messages,
                i as nat,
            ).index.contains_key(messages[i].message.node_id.id.value) implies
            messages[i].node.valid || messages[i].message.node_name is Some by {
            assert(keys_run(index.dom(), messages, i as nat).contains(messages[i].key()));
        }
    } else {
        let i = choose|i: int|
            0 <= i < messages.len() && crate::scene_tree::mirror::is_nameless(
                #[trigger] messages[i],
            ) && keys_run(index.dom(), messages, i as nat).contains(messages[i].key());
        assert(mirror_run(input, index, messages, i as nat).index.contains_key(
            messages[i].message.node_id.id.value,
        ));
    }
}

/// The short way is for batches in which every message gives a new name, and for no other.
pub proof fn law_short_way_is_for_new_names(messages: Seq<ObservedMessageView>)
    ensures
        only_renames(messages) <==> forall|i: int|
            0 <= i < messages.len() ==> (#[trigger] messages[i]).message.message_type
                == SceneTreeMessageType::NodeRenamed,
{
}

} // verus!
