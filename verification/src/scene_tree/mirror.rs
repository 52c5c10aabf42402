//! From scene-tree messages to the ECS commands that mirror them.

use std::collections::{HashMap, HashSet};
use std::rc::Rc;

use vstd::prelude::*;

use crate::ids::{Entity, GodotNodeHandle, InstanceId};
use crate::node_index::{indexed, NodeEntityIndex};
use crate::scene_tree::collision::{
    collider_kind, collision_mask_from_node, is_collision_body, kind_of_chain, mask_is_body,
    signal_mask, NodeSignals, PendingCollisionBody,
};
use crate::scene_tree::message::{
    SceneTreeMessage, SceneTreeMessageType, SceneTreeMessageView,
};
use crate::scene_tree::plugin::Groups;
use crate::text::{copy_texts, texts};

verus! {

broadcast use vstd::std_specs::hash::group_hash_axioms;

/// What the engine says of the node of a message when the message is processed. Of a node that is
/// gone only `valid` says anything, and it has neither parent nor exclusion.
#[derive(Debug)]
pub struct NodeObservation {
    /// Whether the node still exists.
    pub valid: bool,
    pub name: String,
    /// The inheritance chain of the class that the message names, or else of the node's class.
    pub class_hierarchy: Rc<Vec<String>>,
    pub signals: NodeSignals,
    pub groups: Vec<String>,
    pub parent: Option<InstanceId>,
    /// Whether the node is, or is below, a node that is excluded from the mirror.
    pub excluded: bool,
}

/// The contents of an observation.
pub struct NodeObservationView {
    pub valid: bool,
    pub name: Seq<char>,
    pub class_hierarchy: Seq<Seq<char>>,
    pub signals: NodeSignals,
    pub groups: Seq<Seq<char>>,
    pub parent: Option<InstanceId>,
    pub excluded: bool,
}

impl View for NodeObservation {
    type V = NodeObservationView;

    open spec fn view(&self) -> NodeObservationView {
        NodeObservationView {
            valid: self.valid,
            name: self.name@,
            class_hierarchy: texts(self.class_hierarchy@),
            signals: self.signals,
            groups: texts(self.groups@),
            parent: self.parent,
            excluded: self.excluded,
        }
    }
}

/// A message together with what the engine says of its node.
#[derive(Debug)]
pub struct ObservedMessage {
    pub message: SceneTreeMessage,
    pub node: NodeObservation,
}

/// The contents of an observed message.
pub struct ObservedMessageView {
    pub message: SceneTreeMessageView,
    pub node: NodeObservationView,
}

impl View for ObservedMessage {
    type V = ObservedMessageView;

    open spec fn view(&self) -> ObservedMessageView {
        ObservedMessageView { message: self.message@, node: self.node@ }
    }
}

impl ObservedMessageView {
    /// The number of the node's instance id.
    pub open spec fn key(self) -> i64 {
        self.message.node_id.id.value
    }

    /// The node's name: the one in the message, else the one the engine gives.
    pub open spec fn name(self) -> Seq<char> {
        match self.message.node_name {
            Some(name) => name,
            None => self.node.name,
        }
    }
}

/// The contents of a list of observed messages.
pub open spec fn observed(list: Seq<ObservedMessage>) -> Seq<ObservedMessageView> {
    list.map_values(|m: ObservedMessage| m@)
}

/// What the world says of an entity with a node handle.
#[derive(Clone, Copy, Debug, PartialEq, Eq, Structural)]
pub struct EntityFacts {
    /// Whether the entity outlives its node.
    pub protected: bool,
    /// Whether the entity got everything it has from its node already.
    pub decorated: bool,
}

/// The entities of the world that carry a node handle, as they were before the batch: what the
/// batch spawns is not among them.
#[derive(Debug)]
pub struct EntityTable {
    rows: HashMap<u64, EntityFacts>,
}

impl View for EntityTable {
    type V = Map<u64, EntityFacts>;

    closed spec fn view(&self) -> Map<u64, EntityFacts> {
        self.rows@
    }
}

impl EntityTable {
    /// A table without entities.
    pub fn new() -> (r: EntityTable)
        ensures
            r@ == Map::<u64, EntityFacts>::empty(),
    {
        EntityTable { rows: HashMap::new() }
    }

    /// Enter an entity.
    pub fn insert(&mut self, entity: Entity, facts: EntityFacts)
        ensures
            final(self)@ == old(self)@.insert(entity.bits, facts),
    {
        self.rows.insert(entity.bits, facts);
    }

    /// Whether the entity is known to be decorated.
    pub fn is_decorated(&self, entity: Entity) -> (r: bool)
        ensures
            r == decorated(self@, entity),
    {
        match self.rows.get(&entity.bits) {
            Some(facts) => facts.decorated,
            None => false,
        }
    }

    /// Whether the entity is known to be protected.
    pub fn is_protected(&self, entity: Entity) -> (r: bool)
        ensures
            r == protected(self@, entity),
    {
        match self.rows.get(&entity.bits) {
            Some(facts) => facts.protected,
            None => false,
        }
    }
}

/// Whether an entity is known to be decorated.
pub open spec fn decorated(table: Map<u64, EntityFacts>, entity: Entity) -> bool {
    table.contains_key(entity.bits) && table[entity.bits].decorated
}

/// Whether an entity is known to be protected.
pub open spec fn protected(table: Map<u64, EntityFacts>, entity: Entity) -> bool {
    table.contains_key(entity.bits) && table[entity.bits].protected
}

/// What holds for a whole batch.
#[derive(Clone, Copy, Debug, PartialEq, Eq, Structural)]
pub struct MirrorContext {
    /// The root of the scene tree, which has no entity.
    pub scene_root: InstanceId,
    /// Whether there is a collision watcher to connect signals to.
    pub collision_watcher: bool,
}

/// An ECS command that mirrors a change of the scene tree.
#[derive(Debug)]
pub enum MirrorCommand {
    /// Give the entity the node's handle and name, and nothing else.
    Refresh { entity: Entity, node: GodotNodeHandle, name: String },
    /// Give the entity everything it has from its node: the marks of the node's classes, handle,
    /// name, groups, the components registered for its class, and the mark that this was done.
    Decorate {
        entity: Entity,
        node: GodotNodeHandle,
        name: String,
        groups: Groups,
        class_hierarchy: Rc<Vec<String>>,
    },
    /// Put the entity below another one.
    SetParent { entity: Entity, parent: Entity },
    /// Take the entity out from below any other. Where the node has a parent that is not
    /// mirrored, it is named, so that a warning can be given.
    ClearParent { entity: Entity, missing: Option<InstanceId> },
    /// Despawn the entity.
    Despawn { entity: Entity },
    /// Take everything from the entity that it has from its node, and keep the rest.
    Strip { entity: Entity },
    /// Give the entity a new name.
    Rename { entity: Entity, name: String },
}

/// The contents of a command.
pub enum MirrorCommandView {
    Refresh { entity: Entity, node: GodotNodeHandle, name: Seq<char> },
    Decorate {
        entity: Entity,
        node: GodotNodeHandle,
        name: Seq<char>,
        groups: Seq<Seq<char>>,
        class_hierarchy: Seq<Seq<char>>,
    },
    SetParent { entity: Entity, parent: Entity },
    ClearParent { entity: Entity, missing: Option<InstanceId> },
    Despawn { entity: Entity },
    Strip { entity: Entity },
    Rename { entity: Entity, name: Seq<char> },
}

impl View for MirrorCommand {
    type V = MirrorCommandView;

    open spec fn view(&self) -> MirrorCommandView {
        match *self {
            MirrorCommand::Refresh { entity, node, name } => MirrorCommandView::Refresh {
                entity,
                node,
                name: name@,
            },
            MirrorCommand::Decorate { entity, node, name, groups, class_hierarchy } => {
                MirrorCommandView::Decorate {
                    entity,
                    node,
                    name: name@,
                    groups: groups@,
                    class_hierarchy: texts(class_hierarchy@),
                }
            },
            MirrorCommand::SetParent { entity, parent } => MirrorCommandView::SetParent {
                entity,
                parent,
            },
            MirrorCommand::ClearParent { entity, missing } => MirrorCommandView::ClearParent {
                entity,
                missing,
            },
            MirrorCommand::Despawn { entity } => MirrorCommandView::Despawn { entity },
            MirrorCommand::Strip { entity } => MirrorCommandView::Strip { entity },
            MirrorCommand::Rename { entity, name } => MirrorCommandView::Rename {
                entity,
                name: name@,
            },
        }
    }
}

/// What a batch comes to: the commands in order, and the collision bodies whose signals are then
/// to be connected.
#[derive(Debug)]
pub struct MirrorBatch {
    pub commands: Vec<MirrorCommand>,
    pub bodies: Vec<PendingCollisionBody>,
}

/// The contents of a list of commands.
pub open spec fn commands_view(commands: Seq<MirrorCommand>) -> Seq<MirrorCommandView> {
    commands.map_values(|c: MirrorCommand| c@)
}

/// How far a batch has come: the index, the commands and bodies so far, and how many of the fresh
/// entities are taken.
#[verifier::ext_equal]
pub struct MirrorState {
    pub index: Map<i64, Entity>,
    pub commands: Seq<MirrorCommandView>,
    pub bodies: Seq<PendingCollisionBody>,
    pub taken: nat,
}

/// What a batch is processed against: the entities of the world, the context, and the fresh
/// entities that stand ready.
pub struct MirrorInput {
    pub table: Map<u64, EntityFacts>,
    pub context: MirrorContext,
    pub fresh: Seq<Entity>,
}

/// The collision body that a newly decorated node is, if any. Without a watcher there is none.
pub open spec fn body_of(context: MirrorContext, m: ObservedMessageView) -> Option<
    PendingCollisionBody,
> {
    let mask = match m.message.collision_mask {
        Some(mask) => mask,
        None => signal_mask(m.node.signals),
    };
    if context.collision_watcher && mask_is_body(mask) {
        Some(
            PendingCollisionBody {
                node_id: m.message.node_id.id,
                mask,
                kind: kind_of_chain(m.node.class_hierarchy),
            },
        )
    } else {
        None
    }
}

/// The parent of a node: the one in the message, else the one the engine gives. The root of the
/// tree does not count.
pub open spec fn parent_of(context: MirrorContext, m: ObservedMessageView) -> Option<InstanceId> {
    let parent = match m.message.parent_id {
        Some(id) => Some(id),
        None => m.node.parent,
    };
    if parent == Some(context.scene_root) {
        None
    } else {
        parent
    }
}

/// The command that puts an entity where its node is: below the entity of the node's parent, or
/// below none.
pub open spec fn link_command(
    index: Map<i64, Entity>,
    entity: Entity,
    parent: Option<InstanceId>,
) -> MirrorCommandView {
    match parent {
        Some(id) => match indexed(index, id) {
            Some(parent) => MirrorCommandView::SetParent { entity, parent },
            None => MirrorCommandView::ClearParent { entity, missing: Some(id) },
        },
        None => MirrorCommandView::ClearParent { entity, missing: None },
    }
}

/// Whether one of the commands decorates an entity.
pub open spec fn decorated_in(commands: Seq<MirrorCommandView>, e: Entity) -> bool {
    exists|i: int| 0 <= i < commands.len() && #[trigger] decorates(commands[i], e)
}

/// Whether a command decorates an entity.
pub open spec fn decorates(command: MirrorCommandView, e: Entity) -> bool {
    command matches MirrorCommandView::Decorate { entity, .. } && entity == e
}

/// A node came into the tree, or moved within it. A node that is gone again by now is passed over.
/// An entity that was decorated before, in the world or earlier in the batch, is only refreshed:
/// decorating it again would undo what was done to it since.
pub open spec fn after_added(
    input: MirrorInput,
    state: MirrorState,
    m: ObservedMessageView,
) -> MirrorState {
    if !m.node.valid {
        state
    } else {
        let existing = indexed(state.index, m.message.node_id.id);
        let entity = match existing {
            Some(entity) => entity,
            None => input.fresh[state.taken as int],
        };
        let taken = if existing is Some {
            state.taken
        } else {
            state.taken + 1
        };
        if existing is Some && (decorated(input.table, entity) || decorated_in(
            state.commands,
            entity,
        )) {
            MirrorState {
                commands: state.commands.push(
                    MirrorCommandView::Refresh { entity, node: m.message.node_id, name: m.name() },
                ).push(link_command(state.index, entity, parent_of(input.context, m))),
                taken,
                ..state
            }
        } else {
            let index = state.index.insert(m.key(), entity);
            let groups = match m.message.groups {
                Some(groups) => groups,
                None => m.node.groups,
            };
            MirrorState {
                index,
                commands: state.commands.push(
                    MirrorCommandView::Decorate {
                        entity,
                        node: m.message.node_id,
                        name: m.name(),
                        groups,
                        class_hierarchy: m.node.class_hierarchy,
                    },
                ).push(link_command(index, entity, parent_of(input.context, m))),
                bodies: match body_of(input.context, m) {
                    Some(body) => state.bodies.push(body),
                    None => state.bodies,
                },
                taken,
            }
        }
    }
}

/// Whether a node that left its place is gone from the mirror: it has no parent any more, or the
/// one it has now is excluded. Otherwise it is only moving.
pub open spec fn leaves_mirror(m: ObservedMessageView) -> bool {
    m.node.parent is None || m.node.excluded
}

/// A node left its place. While it is only moving its entity is kept. A protected entity survives
/// the end of its node; one whose node moved into an excluded place does not.
pub open spec fn after_removed(
    input: MirrorInput,
    state: MirrorState,
    m: ObservedMessageView,
) -> MirrorState {
    match indexed(state.index, m.message.node_id.id) {
        Some(entity) if leaves_mirror(m) => MirrorState {
            index: state.index.remove(m.key()),
            commands: state.commands.push(
                if m.node.parent is None && protected(input.table, entity) {
                    MirrorCommandView::Strip { entity }
                } else {
                    MirrorCommandView::Despawn { entity }
                },
            ),
            ..state
        },
        _ => state,
    }
}

/// A node has a new name.
pub open spec fn after_renamed(state: MirrorState, m: ObservedMessageView) -> MirrorState {
    match indexed(state.index, m.message.node_id.id) {
        Some(entity) => MirrorState {
            commands: state.commands.push(MirrorCommandView::Rename { entity, name: m.name() }),
            ..state
        },
        None => state,
    }
}

/// The state after one more message.
pub open spec fn after_message(
    input: MirrorInput,
    state: MirrorState,
    m: ObservedMessageView,
) -> MirrorState {
    match m.message.message_type {
        SceneTreeMessageType::NodeAdded => after_added(input, state, m),
        SceneTreeMessageType::NodeRemoved => after_removed(input, state, m),
        SceneTreeMessageType::NodeRenamed => after_renamed(state, m),
    }
}

/// The state before the first message.
pub open spec fn start_state(index: Map<i64, Entity>) -> MirrorState {
    MirrorState { index, commands: Seq::empty(), bodies: Seq::empty(), taken: 0 }
}

/// The state after the first `n` messages.
pub open spec fn mirror_run(
    input: MirrorInput,
    index: Map<i64, Entity>,
    messages: Seq<ObservedMessageView>,
    n: nat,
) -> MirrorState
    decreases n,
{
    if n == 0 {
        start_state(index)
    } else {
        after_message(
            input,
            mirror_run(input, index, messages, (n - 1) as nat),
            messages[n - 1],
        )
    }
}

/// Whether a message makes an entity for its node, where the nodes `keys` have one.
pub open spec fn spawns(keys: Set<i64>, m: ObservedMessageView) -> bool {
    m.message.message_type is NodeAdded && m.node.valid && !keys.contains(m.key())
}

/// The nodes that have an entity after a message, where the nodes `keys` had one.
pub open spec fn keys_after(keys: Set<i64>, m: ObservedMessageView) -> Set<i64> {
    match m.message.message_type {
        SceneTreeMessageType::NodeAdded => if m.node.valid {
            keys.insert(m.key())
        } else {
            keys
        },
        SceneTreeMessageType::NodeRemoved => if leaves_mirror(m) {
            keys.remove(m.key())
        } else {
            keys
        },
        SceneTreeMessageType::NodeRenamed => keys,
    }
}

/// The nodes that have an entity after the first `n` messages.
pub open spec fn keys_run(keys: Set<i64>, messages: Seq<ObservedMessageView>, n: nat) -> Set<i64>
    decreases n,
{
    if n == 0 {
        keys
    } else {
        keys_after(keys_run(keys, messages, (n - 1) as nat), messages[n - 1])
    }
}

/// How many entities the first `n` messages make.
pub open spec fn demand(keys: Set<i64>, messages: Seq<ObservedMessageView>, n: nat) -> nat
    decreases n,
{
    if n == 0 {
        0
    } else {
        let k = (n - 1) as nat;
        demand(keys, messages, k) + if spawns(keys_run(keys, messages, k), messages[n - 1]) {
            1nat
        } else {
            0
        }
    }
}

/// How many entities the messages make is known before any is processed: it depends on the
/// messages and on which nodes are indexed alone.
pub proof fn law_demand_is_what_is_taken(
    input: MirrorInput,
    index: Map<i64, Entity>,
    messages: Seq<ObservedMessageView>,
    n: nat,
)
    ensures
        mirror_run(input, index, messages, n).taken == demand(index.dom(), messages, n),
        mirror_run(input, index, messages, n).index.dom() == keys_run(index.dom(), messages, n),
    decreases n,
{
    if n > 0 {
        let k = (n - 1) as nat;
        law_demand_is_what_is_taken(input, index, messages, k);
        let before = mirror_run(input, index, messages, k);
        let after = mirror_run(input, index, messages, n);
        assert(after.index.dom() =~= keys_run(index.dom(), messages, n));
    }
}

/// Every node that is announced while it exists is indexed after the batch, where the batch only
/// announces nodes, as that at startup does; and so is every node that was indexed before it.
pub proof fn law_announced_nodes_are_indexed(
    input: MirrorInput,
    index: Map<i64, Entity>,
    messages: Seq<ObservedMessageView>,
    n: nat,
)
    requires
        n <= messages.len(),
        forall|i: int|
            0 <= i < n ==> (#[trigger] messages[i]).message.message_type is NodeAdded,
    ensures
        forall|i: int|
            0 <= i < n && (#[trigger] messages[i]).node.valid ==> indexed(
                mirror_run(input, index, messages, n).index,
                messages[i].message.node_id.id,
            ) is Some,
        forall|id: i64| #[trigger]
            index.contains_key(id) ==> mirror_run(input, index, messages, n).index.contains_key(id),
    decreases n,
{
    if n > 0 {
        let k = (n - 1) as nat;
        law_announced_nodes_are_indexed(input, index, messages, k);
        let before = mirror_run(input, index, messages, k);
        let after = mirror_run(input, index, messages, n);
        assert(messages[k as int].message.message_type is NodeAdded);
        assert forall|id: i64| before.index.contains_key(id) implies after.index.contains_key(
            id,
        ) by {}
        assert forall|i: int| 0 <= i < n && (#[trigger] messages[i]).node.valid implies indexed(
            after.index,
            messages[i].message.node_id.id,
        ) is Some by {
            if i < k {
                assert(before.index.contains_key(messages[i].message.node_id.id.value));
            }
        }
    }
}

proof fn lemma_demand_grows(keys: Set<i64>, messages: Seq<ObservedMessageView>, i: nat, n: nat)
    requires
        i <= n,
    ensures
        demand(keys, messages, i) <= demand(keys, messages, n),
        demand(keys, messages, n) <= n,
    decreases n,
{
    if n > 0 {
        if i < n {
            lemma_demand_grows(keys, messages, i, (n - 1) as nat);
        } else {
            lemma_demand_grows(keys, messages, (n - 1) as nat, (n - 1) as nat);
        }
    }
}

/// Whether `changed` says what a batch has changed about which nodes have an entity: `keys` before
/// it, `now` at this point of it.
spec fn follows(changed: Map<i64, bool>, keys: Set<i64>, now: Set<i64>) -> bool {
    forall|id: i64|
        #![trigger changed.contains_key(id)]
        #![trigger now.contains(id)]
        now.contains(id) == (if changed.contains_key(id) {
            changed[id]
        } else {
            keys.contains(id)
        })
}

/// Note what a message changes about which nodes have an entity.
fn note_change(changed: &mut HashMap<i64, bool>, m: &ObservedMessage)
    ensures
        forall|keys: Set<i64>, now: Set<i64>| #[trigger]
            follows(old(changed)@, keys, now) ==> follows(
                final(changed)@,
                keys,
                keys_after(now, m@),
            ),
{
    let id: i64 = m.message.node_id.id.value;
    match m.message.message_type {
        SceneTreeMessageType::NodeAdded => {
            if m.node.valid {
                changed.insert(id, true);
            }
        },
        SceneTreeMessageType::NodeRemoved => {
            if m.node.parent.is_none() || m.node.excluded {
                changed.insert(id, false);
            }
        },
        SceneTreeMessageType::NodeRenamed => {},
    }
}

/// Whether the node of a message has an entity at this point of a batch.
fn is_present(changed: &HashMap<i64, bool>, index: &NodeEntityIndex, m: &ObservedMessage) -> (r:
    bool)
    ensures
        forall|now: Set<i64>| #[trigger]
            follows(changed@, index@.dom(), now) ==> r == now.contains(m@.key()),
{
    match changed.get(&m.message.node_id.id.value) {
        Some(present) => *present,
        None => index.contains(m.message.node_id.id),
    }
}

/// How many entities have to stand ready for a batch.
pub fn spawn_demand(index: &NodeEntityIndex, messages: &Vec<ObservedMessage>) -> (r: usize)
    ensures
        r == demand(index@.dom(), observed(messages@), messages@.len()),
{
    let ghost keys = index@.dom();
    let ghost list = observed(messages@);
    let mut changed: HashMap<i64, bool> = HashMap::new();
    let mut r: usize = 0;
    for i in 0..messages.len()
        invariant
            keys == index@.dom(),
            list == observed(messages@),
            r == demand(keys, list, i as nat),
            r <= i,
            follows(changed@, keys, keys_run(keys, list, i as nat)),
    {
        let m = &messages[i];
        assert(list[i as int] == m@);
        let present: bool = is_present(&changed, index, m);
        if let SceneTreeMessageType::NodeAdded = m.message.message_type {
            if m.node.valid && !present {
                r = r + 1;
            }
        }
        note_change(&mut changed, m);
    }
    r
}

/// Whether a message gives a node a new name without saying which, when the node is gone and cannot
/// be asked any more.
pub open spec fn is_nameless(m: ObservedMessageView) -> bool {
    m.message.message_type is NodeRenamed && m.message.node_name is None && !m.node.valid
}

/// Whether every name is known that the first `n` messages give to an entity, where the nodes `keys`
/// have one.
pub open spec fn names_known(keys: Set<i64>, messages: Seq<ObservedMessageView>, n: nat) -> bool {
    forall|i: int|
        0 <= i < n && is_nameless(#[trigger] messages[i]) ==> !keys_run(
            keys,
            messages,
            i as nat,
        ).contains(messages[i].key())
}

/// Whether every name is known that a batch gives to an entity. A node that is gone leaves its new
/// name open where the message does not tell it; that is in order once the entity is gone, too.
pub fn names_are_known(index: &NodeEntityIndex, messages: &Vec<ObservedMessage>) -> (r: bool)
    ensures
        r == names_known(index@.dom(), observed(messages@), messages@.len()),
{
    let ghost keys = index@.dom();
    let ghost list = observed(messages@);
    let mut changed: HashMap<i64, bool> = HashMap::new();
    for i in 0..messages.len()
        invariant
            keys == index@.dom(),
            list == observed(messages@),
            names_known(keys, list, i as nat),
            follows(changed@, keys, keys_run(keys, list, i as nat)),
    {
        let m = &messages[i];
        assert(list[i as int] == m@);
        let present: bool = is_present(&changed, index, m);
        if let SceneTreeMessageType::NodeRenamed = m.message.message_type {
            if m.message.node_name.is_none() && !m.node.valid && present {
                assert(is_nameless(list[i as int]));
                return false;
            }
        }
        note_change(&mut changed, m);
    }
    true
}

/// The state that a half-done batch stands for.
spec fn state_view(
    index: NodeEntityIndex,
    batch: MirrorBatch,
    taken: nat,
) -> MirrorState {
    MirrorState {
        index: index@,
        commands: commands_view(batch.commands@),
        bodies: batch.bodies@,
        taken,
    }
}

/// Whether a set holds the entities that the commands decorate.
spec fn tracks(decorated: Set<u64>, commands: Seq<MirrorCommandView>) -> bool {
    forall|e: Entity| #[trigger] decorated.contains(e.bits) <==> decorated_in(commands, e)
}

/// The set still holds the entities that are decorated after one more command.
proof fn lemma_tracks_push(
    decorated: Set<u64>,
    commands: Seq<MirrorCommandView>,
    command: MirrorCommandView,
)
    requires
        tracks(decorated, commands),
    ensures
        tracks(
            match command {
                MirrorCommandView::Decorate { entity, .. } => decorated.insert(entity.bits),
                _ => decorated,
            },
            commands.push(command),
        ),
{
    let more = commands.push(command);
    assert forall|e: Entity| decorated_in(more, e) <==> decorated_in(commands, e) || decorates(
        command,
        e,
    ) by {
        if decorated_in(commands, e) {
            let i = choose|i: int| 0 <= i < commands.len() && #[trigger] decorates(commands[i], e);
            assert(decorates(more[i], e));
        }
        if decorates(command, e) {
            assert(decorates(more[commands.len() as int], e));
        }
        if decorated_in(more, e) {
            let i = choose|i: int| 0 <= i < more.len() && #[trigger] decorates(more[i], e);
            if i < commands.len() {
                assert(decorates(commands[i], e));
            }
        }
    }
    let set = match command {
        MirrorCommandView::Decorate { entity, .. } => decorated.insert(entity.bits),
        _ => decorated,
    };
    assert forall|e: Entity| #[trigger] set.contains(e.bits) <==> decorated_in(more, e) by {
        assert(decorated.contains(e.bits) <==> decorated_in(commands, e));
    }
}

fn push_command(commands: &mut Vec<MirrorCommand>, command: MirrorCommand)
    ensures
        commands_view(final(commands)@) == commands_view(old(commands)@).push(command@),
{
    let ghost before = commands@;
    commands.push(command);
    assert(commands_view(commands@) =~= commands_view(before).push(command@));
}

/// The name of the node of a message: the one in the message, else the one the engine gives.
fn name_of(m: &ObservedMessage) -> (r: String)
    ensures
        r@ == m@.name(),
{
    match &m.message.node_name {
        Some(name) => name.clone(),
        None => m.node.name.clone(),
    }
}

fn push_link(
    index: &NodeEntityIndex,
    context: &MirrorContext,
    commands: &mut Vec<MirrorCommand>,
    entity: Entity,
    m: &ObservedMessage,
)
    ensures
        commands_view(final(commands)@) == commands_view(old(commands)@).push(
            link_command(index@, entity, parent_of(*context, m@)),
        ),
{
    let named: Option<InstanceId> = match m.message.parent_id {
        Some(id) => Some(id),
        None => m.node.parent,
    };
    let parent: Option<InstanceId> = match named {
        Some(id) => if id == context.scene_root {
            None
        } else {
            Some(id)
        },
        None => None,
    };
    let command = match parent {
        Some(id) => match index.get(id) {
            Some(parent) => MirrorCommand::SetParent { entity, parent },
            None => MirrorCommand::ClearParent { entity, missing: Some(id) },
        },
        None => MirrorCommand::ClearParent { entity, missing: None },
    };
    assert(parent == parent_of(*context, m@));
    assert(command@ == link_command(index@, entity, parent_of(*context, m@)));
    push_command(commands, command);
}

fn process_added(
    index: &mut NodeEntityIndex,
    entities: &EntityTable,
    context: &MirrorContext,
    fresh: &Vec<Entity>,
    batch: &mut MirrorBatch,
    decorated: &mut HashSet<u64>,
    taken: usize,
    m: &ObservedMessage,
) -> (r: usize)
    requires
        m@.message.message_type is NodeAdded,
        spawns(old(index)@.dom(), m@) ==> taken < fresh@.len(),
        tracks(old(decorated)@, commands_view(old(batch).commands@)),
    ensures
        tracks(final(decorated)@, commands_view(final(batch).commands@)),
        final(index).behind() == old(index).behind(),
        state_view(*final(index), *final(batch), r as nat) == after_message(
            MirrorInput { table: entities@, context: *context, fresh: fresh@ },
            state_view(*old(index), *old(batch), taken as nat),
            m@,
        ),
{
    if !m.node.valid {
        return taken;
    }
    let ghost start = commands_view(batch.commands@);
    let node_id = m.message.node_id;
    let existing = index.get(node_id.instance_id());
    let name = name_of(m);
    if let Some(entity) = existing {
        assert(decorated@.contains(entity.bits) <==> decorated_in(start, entity));
        if entities.is_decorated(entity) || decorated.contains(&entity.bits) {
            let refresh = MirrorCommand::Refresh { entity, node: node_id, name };
            proof {
                let link = link_command(index@, entity, parent_of(*context, m@));
                lemma_tracks_push(decorated@, start, refresh@);
                lemma_tracks_push(decorated@, start.push(refresh@), link);
            }
            push_command(&mut batch.commands, refresh);
            push_link(index, context, &mut batch.commands, entity, m);
            return taken;
        }
    }
    let entity = match existing {
        Some(entity) => entity,
        None => fresh[taken],
    };
    let ready: usize = fresh.len();
    let next: usize = match existing {
        Some(_) => taken,
        None => {
            assert(taken < ready);
            taken + 1
        },
    };
    let class_hierarchy = m.node.class_hierarchy.clone();
    if context.collision_watcher {
        let mask: u8 = match m.message.collision_mask {
            Some(mask) => mask,
            None => collision_mask_from_node(&m.node.signals),
        };
        if is_collision_body(mask) {
            let kind = collider_kind(&class_hierarchy);
            batch.bodies.push(
                PendingCollisionBody { node_id: node_id.instance_id(), mask, kind },
            );
        }
    }
    let groups = match &m.message.groups {
        Some(groups) => Groups::from(copy_texts(groups)),
        None => Groups::from(copy_texts(&m.node.groups)),
    };
    let decorate = MirrorCommand::Decorate { entity, node: node_id, name, groups, class_hierarchy };
    index.insert(node_id.instance_id(), entity);
    proof {
        let link = link_command(index@, entity, parent_of(*context, m@));
        lemma_tracks_push(decorated@, start, decorate@);
        lemma_tracks_push(decorated@.insert(entity.bits), start.push(decorate@), link);
    }
    push_command(&mut batch.commands, decorate);
    decorated.insert(entity.bits);
    push_link(index, context, &mut batch.commands, entity, m);
    next
}

fn process_removed(
    index: &mut NodeEntityIndex,
    entities: &EntityTable,
    context: &MirrorContext,
    fresh: &Vec<Entity>,
    batch: &mut MirrorBatch,
    decorated: &HashSet<u64>,
    taken: usize,
    m: &ObservedMessage,
)
    requires
        m@.message.message_type is NodeRemoved,
        tracks(decorated@, commands_view(old(batch).commands@)),
    ensures
        tracks(decorated@, commands_view(final(batch).commands@)),
        final(index).behind() == old(index).behind(),
        state_view(*final(index), *final(batch), taken as nat) == after_message(
            MirrorInput { table: entities@, context: *context, fresh: fresh@ },
            state_view(*old(index), *old(batch), taken as nat),
            m@,
        ),
{
    let id = m.message.node_id.instance_id();
    if let Some(entity) = index.get(id) {
        proof {
            let start = commands_view(batch.commands@);
            lemma_tracks_push(decorated@, start, MirrorCommandView::Despawn { entity });
            lemma_tracks_push(decorated@, start, MirrorCommandView::Strip { entity });
        }
        if m.node.parent.is_some() {
            if m.node.excluded {
                push_command(&mut batch.commands, MirrorCommand::Despawn { entity });
                index.remove(id);
            }
        } else {
            if entities.is_protected(entity) {
                push_command(&mut batch.commands, MirrorCommand::Strip { entity });
            } else {
                push_command(&mut batch.commands, MirrorCommand::Despawn { entity });
            }
            index.remove(id);
        }
    }
}

fn process_renamed(
    index: &NodeEntityIndex,
    batch: &mut MirrorBatch,
    decorated: &HashSet<u64>,
    taken: usize,
    m: &ObservedMessage,
)
    requires
        m@.message.message_type is NodeRenamed,
        tracks(decorated@, commands_view(old(batch).commands@)),
    ensures
        tracks(decorated@, commands_view(final(batch).commands@)),
        state_view(*index, *final(batch), taken as nat) == after_renamed(
            state_view(*index, *old(batch), taken as nat),
            m@,
        ),
{
    if let Some(entity) = index.get(m.message.node_id.instance_id()) {
        let rename = MirrorCommand::Rename { entity, name: name_of(m) };
        proof {
            lemma_tracks_push(decorated@, commands_view(batch.commands@), rename@);
        }
        push_command(&mut batch.commands, rename);
    }
}

/// Process a batch of messages, in order: the index follows, and the commands come back. `fresh`
/// holds at least [`spawn_demand`] entities for the nodes that have none; they are taken in order.
/// Every name that the batch gives is known: [`names_are_known`].
pub fn create_scene_tree_entity(
    index: &mut NodeEntityIndex,
    entities: &EntityTable,
    context: &MirrorContext,
    messages: &Vec<ObservedMessage>,
    fresh: &Vec<Entity>,
) -> (batch: MirrorBatch)
    requires
        fresh@.len() >= demand(old(index)@.dom(), observed(messages@), messages@.len()),
        names_known(old(index)@.dom(), observed(messages@), messages@.len()),
    ensures
        ({
            let input = MirrorInput { table: entities@, context: *context, fresh: fresh@ };
            let end = mirror_run(input, old(index)@, observed(messages@), messages@.len());
            &&& final(index)@ == end.index
            &&& final(index).behind() == old(index).behind()
            &&& commands_view(batch.commands@) == end.commands
            &&& batch.bodies@ == end.bodies
        }),
{
    let ghost start = index@;
    let ghost list = observed(messages@);
    let ghost input = MirrorInput { table: entities@, context: *context, fresh: fresh@ };
    let mut batch = MirrorBatch { commands: Vec::new(), bodies: Vec::new() };
    let mut decorated: HashSet<u64> = HashSet::new();
    let mut taken: usize = 0;
    assert(state_view(*index, batch, 0) =~= start_state(start));
    for i in 0..messages.len()
        invariant
            list == observed(messages@),
            input == (MirrorInput { table: entities@, context: *context, fresh: fresh@ }),
            fresh@.len() >= demand(start.dom(), list, messages@.len()),
            index.behind() == old(index).behind(),
            state_view(*index, batch, taken as nat) == mirror_run(input, start, list, i as nat),
            tracks(decorated@, commands_view(batch.commands@)),
    {
        let m = &messages[i];
        proof {
            assert(list[i as int] == m@);
            law_demand_is_what_is_taken(input, start, list, i as nat);
            lemma_demand_grows(start.dom(), list, (i + 1) as nat, messages@.len());
        }
        let ghost before = state_view(*index, batch, taken as nat);
        match m.message.message_type {
            SceneTreeMessageType::NodeAdded => {
                taken =
                    process_added(
                        index,
                        entities,
                        context,
                        fresh,
                        &mut batch,
                        &mut decorated,
                        taken,
                        m,
                    );
            },
            SceneTreeMessageType::NodeRemoved => {
                process_removed(
                    index,
                    entities,
                    context,
                    fresh,
                    &mut batch,
                    &decorated,
                    taken,
                    m,
                );
            },
            SceneTreeMessageType::NodeRenamed => {
                process_renamed(index, &mut batch, &decorated, taken, m);
            },
        }
        assert(state_view(*index, batch, taken as nat) == after_message(input, before, m@));
    }
    batch
}

/// Whether a batch only gives nodes new names.
pub open spec fn only_renames(messages: Seq<ObservedMessageView>) -> bool {
    forall|i: int|
        0 <= i < messages.len() ==> (#[trigger] messages[i]).message.message_type is NodeRenamed
}

/// The commands of the first `n` messages, where they only give nodes new names.
pub open spec fn rename_run(
    index: Map<i64, Entity>,
    messages: Seq<ObservedMessageView>,
    n: nat,
) -> Seq<MirrorCommandView>
    decreases n,
{
    if n == 0 {
        Seq::empty()
    } else {
        let before = rename_run(index, messages, (n - 1) as nat);
        match indexed(index, messages[n - 1].message.node_id.id) {
            Some(entity) => before.push(
                MirrorCommandView::Rename { entity, name: messages[n - 1].name() },
            ),
            None => before,
        }
    }
}

/// On a batch that only gives nodes new names, the short way comes to the same as the general
/// one: the same commands, the same index, no bodies, and no entity made.
pub proof fn law_fast_path_agrees(
    input: MirrorInput,
    index: Map<i64, Entity>,
    messages: Seq<ObservedMessageView>,
    n: nat,
)
    requires
        n <= messages.len(),
        only_renames(messages),
    ensures
        mirror_run(input, index, messages, n) == (MirrorState {
            index,
            commands: rename_run(index, messages, n),
            bodies: Seq::empty(),
            taken: 0,
        }),
    decreases n,
{
    if n > 0 {
        law_fast_path_agrees(input, index, messages, (n - 1) as nat);
        assert(messages[n - 1].message.message_type is NodeRenamed);
    }
}

/// The short way through a batch that only gives nodes new names; `None` where it does more.
pub fn try_process_node_renamed_messages_fast_path(
    index: &NodeEntityIndex,
    messages: &Vec<ObservedMessage>,
) -> (r: Option<Vec<MirrorCommand>>)
    requires
        only_renames(observed(messages@)) ==> names_known(
            index@.dom(),
            observed(messages@),
            messages@.len(),
        ),
    ensures
        match r {
            Some(commands) => only_renames(observed(messages@)) && commands_view(commands@)
                == rename_run(index@, observed(messages@), messages@.len()),
            None => !only_renames(observed(messages@)),
        },
{
    let ghost list = observed(messages@);
    for i in 0..messages.len()
        invariant
            list == observed(messages@),
            forall|k: int|
                0 <= k < i ==> (#[trigger] list[k]).message.message_type is NodeRenamed,
    {
        assert(list[i as int] == messages@[i as int]@);
        match messages[i].message.message_type {
            SceneTreeMessageType::NodeRenamed => {},
            _ => {
                return None;
            },
        }
    }
    let mut commands: Vec<MirrorCommand> = Vec::new();
    assert(commands_view(commands@) =~= rename_run(index@, list, 0));
    for i in 0..messages.len()
        invariant
            list == observed(messages@),
            commands_view(commands@) == rename_run(index@, list, i as nat),
    {
        let m = &messages[i];
        assert(list[i as int] == m@);
        if let Some(entity) = index.get(m.message.node_id.instance_id()) {
            let name = name_of(m);
            push_command(&mut commands, MirrorCommand::Rename { entity, name });
        }
    }
    Some(commands)
}

/// Process the messages of a frame. The short way is taken where it can be; what comes out is the
/// same either way.
pub fn read_scene_tree_messages(
    index: &mut NodeEntityIndex,
    entities: &EntityTable,
    context: &MirrorContext,
    messages: &Vec<ObservedMessage>,
    fresh: &Vec<Entity>,
) -> (batch: MirrorBatch)
    requires
        fresh@.len() >= demand(old(index)@.dom(), observed(messages@), messages@.len()),
        names_known(old(index)@.dom(), observed(messages@), messages@.len()),
    ensures
        ({
            let input = MirrorInput { table: entities@, context: *context, fresh: fresh@ };
            let end = mirror_run(input, old(index)@, observed(messages@), messages@.len());
            &&& final(index)@ == end.index
            &&& final(index).behind() == old(index).behind()
            &&& commands_view(batch.commands@) == end.commands
            &&& batch.bodies@ == end.bodies
        }),
{
    let ghost input = MirrorInput { table: entities@, context: *context, fresh: fresh@ };
    if messages.len() == 0 {
        let batch = MirrorBatch { commands: Vec::new(), bodies: Vec::new() };
        assert(commands_view(batch.commands@) =~= Seq::empty());
        return batch;
    }
    if let Some(commands) = try_process_node_renamed_messages_fast_path(index, messages) {
        proof {
            law_fast_path_agrees(input, index@, observed(messages@), messages@.len());
        }
        return MirrorBatch { commands, bodies: Vec::new() };
    }
    create_scene_tree_entity(index, entities, context, messages, fresh)
}

} // verus!
