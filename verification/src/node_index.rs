//! The lookup from Godot nodes to the ECS entities that mirror them.

use std::collections::HashMap;
use vstd::prelude::*;

use crate::ids::{Entity, GodotNodeHandle, InstanceId};

verus! {

broadcast use vstd::std_specs::hash::group_hash_axioms;

/// Constant-time lookup from a node's instance id to its entity.
///
/// It is kept complete by the component hooks [`on_godot_node_handle_insert`] and
/// [`on_godot_node_handle_replace`], whatever gave the entity its node handle. A node that several
/// entities carry is indexed under the one that got it last; the others stand behind it, in the order
/// in which they got the node, and the last of them takes its place when it gives the node up.
#[derive(Debug)]
pub struct NodeEntityIndex {
    index: HashMap<i64, Entity>,
    behind: HashMap<i64, Vec<Entity>>,
}

impl View for NodeEntityIndex {
    type V = Map<i64, Entity>;

    /// The entity of every indexed node, by the number of its instance id.
    closed spec fn view(&self) -> Map<i64, Entity> {
        self.index@
    }
}

/// All that an index knows: the entity that it names for each node, and the other entities that carry
/// the node, in the order in which they got it.
#[verifier::ext_equal]
pub struct IndexState {
    pub named: Map<i64, Entity>,
    pub behind: Map<i64, Seq<Entity>>,
}

impl IndexState {
    /// The state of an index before anything was told to it.
    pub open spec fn empty() -> IndexState {
        IndexState { named: Map::empty(), behind: Map::empty() }
    }

    /// The entities that carry a node besides the one that is named for it.
    pub open spec fn behind_at(self, id: i64) -> Seq<Entity> {
        if self.behind.contains_key(id) {
            self.behind[id]
        } else {
            Seq::empty()
        }
    }

    /// Whether the index knows that an entity carries a node.
    pub open spec fn knows(self, id: i64, entity: Entity) -> bool {
        ||| self.named.contains_key(id) && self.named[id] == entity
        ||| self.behind_at(id).contains(entity)
    }

    /// The state with another list of entities behind a node.
    pub open spec fn with_behind(self, id: i64, carriers: Seq<Entity>) -> IndexState {
        IndexState {
            named: self.named,
            behind: if carriers.len() == 0 {
                self.behind.remove(id)
            } else {
                self.behind.insert(id, carriers)
            },
        }
    }
}

/// `carriers` without `entity`, in the same order.
pub open spec fn without(carriers: Seq<Entity>, entity: Entity) -> Seq<Entity>
    decreases carriers.len(),
{
    if carriers.len() == 0 {
        carriers
    } else {
        let rest = without(carriers.drop_last(), entity);
        if carriers.last() == entity {
            rest
        } else {
            rest.push(carriers.last())
        }
    }
}

proof fn lemma_without(carriers: Seq<Entity>, entity: Entity)
    ensures
        forall|e: Entity| #[trigger]
            without(carriers, entity).contains(e) <==> carriers.contains(e) && e != entity,
        carriers.no_duplicates() ==> without(carriers, entity).no_duplicates(),
    decreases carriers.len(),
{
    if carriers.len() > 0 {
        let earlier = carriers.drop_last();
        let rest = without(earlier, entity);
        lemma_without(earlier, entity);
        assert(carriers =~= earlier.push(carriers.last()));
        assert forall|e: Entity| #[trigger]
            without(carriers, entity).contains(e) <==> carriers.contains(e) && e != entity by {
            lemma_push_contains(earlier, carriers.last(), e);
            lemma_push_contains(rest, carriers.last(), e);
        }
        if carriers.no_duplicates() {
            if rest.contains(carriers.last()) {
                assert(earlier.contains(carriers.last()));
                let i = choose|i: int| 0 <= i < earlier.len() && earlier[i] == carriers.last();
                assert(carriers[i] == carriers[carriers.len() - 1]);
            }
            assert(earlier.no_duplicates());
        }
    }
}

proof fn lemma_push_contains(carriers: Seq<Entity>, last: Entity, entity: Entity)
    ensures
        carriers.push(last).contains(entity) <==> carriers.contains(entity) || entity == last,
{
    if carriers.contains(entity) {
        let i = choose|i: int| 0 <= i < carriers.len() && carriers[i] == entity;
        assert(carriers.push(last)[i] == entity);
    }
    assert(carriers.push(last)[carriers.len() as int] == last);
}

impl Default for NodeEntityIndex {
    fn default() -> (r: NodeEntityIndex)
        ensures
            r@ == Map::<i64, Entity>::empty(),
            r.state() == IndexState::empty(),
    {
        NodeEntityIndex { index: HashMap::new(), behind: HashMap::new() }
    }
}

/// What looking up `id` in an index gives.
pub open spec fn indexed(index: Map<i64, Entity>, id: InstanceId) -> Option<Entity> {
    if index.contains_key(id.value) {
        Some(index[id.value])
    } else {
        None
    }
}

impl NodeEntityIndex {
    /// The entities that carry a node besides the one that is named for it.
    pub closed spec fn behind(&self) -> Map<i64, Seq<Entity>> {
        self.behind@.map_values(|carriers: Vec<Entity>| carriers@)
    }

    /// All that the index knows.
    pub open spec fn state(&self) -> IndexState {
        IndexState { named: self@, behind: self.behind() }
    }

    /// The entity of the node with this instance id, if it is indexed.
    pub fn get(&self, instance_id: InstanceId) -> (r: Option<Entity>)
        ensures
            r == indexed(self@, instance_id),
    {
        match self.index.get(&instance_id.value) {
            Some(entity) => Some(*entity),
            None => None,
        }
    }

    /// Whether the node with this instance id is indexed.
    pub fn contains(&self, instance_id: InstanceId) -> (r: bool)
        ensures
            r == indexed(self@, instance_id).is_some(),
    {
        self.index.contains_key(&instance_id.value)
    }

    /// The entity of the node behind this handle, if it is indexed.
    pub fn get_handle(&self, handle: GodotNodeHandle) -> (r: Option<Entity>)
        ensures
            r == indexed(self@, handle.id),
    {
        self.get(handle.instance_id())
    }

    /// Whether the node behind this handle is indexed.
    pub fn contains_handle(&self, handle: GodotNodeHandle) -> (r: bool)
        ensures
            r == indexed(self@, handle.id).is_some(),
    {
        self.contains(handle.instance_id())
    }

    /// How many nodes are indexed.
    pub fn len(&self) -> (r: usize)
        ensures
            self@.dom().finite(),
            r == self@.len(),
    {
        self.index.len()
    }

    /// Whether no node is indexed.
    pub fn is_empty(&self) -> (r: bool)
        ensures
            self@.dom().finite(),
            r == (self@.len() == 0),
    {
        self.index.is_empty()
    }

    /// Index a node under an entity, in place of the entity it had. Those behind it stay.
    pub fn insert(&mut self, instance_id: InstanceId, entity: Entity)
        ensures
            final(self)@ == old(self)@.insert(instance_id.value, entity),
            final(self).behind() == old(self).behind(),
            old(self)@.dom().finite(),
    {
        self.index.insert(instance_id.value, entity);
    }

    /// Take a node out of the index and return the entity it had. Those behind it stay out of sight
    /// until the next hook for the node.
    pub fn remove(&mut self, instance_id: InstanceId) -> (r: Option<Entity>)
        ensures
            final(self)@ == old(self)@.remove(instance_id.value),
            final(self).behind() == old(self).behind(),
            r == indexed(old(self)@, instance_id),
            old(self)@.dom().finite(),
    {
        self.index.remove(&instance_id.value)
    }

    /// Take out the entities behind a node, but for one that is left out altogether.
    fn take_behind(&mut self, instance_id: InstanceId, entity: Entity) -> (r: Vec<Entity>)
        ensures
            final(self)@ == old(self)@,
            final(self).behind() == old(self).behind().remove(instance_id.value),
            r@ == without(old(self).state().behind_at(instance_id.value), entity),
    {
        let carriers = match self.behind.remove(&instance_id.value) {
            Some(carriers) => carriers,
            None => Vec::new(),
        };
        assert(self.behind() =~= old(self).behind().remove(instance_id.value));
        let mut rest: Vec<Entity> = Vec::new();
        let mut i: usize = 0;
        while i < carriers.len()
            invariant
                i <= carriers.len(),
                rest@ == without(carriers@.take(i as int), entity),
            decreases carriers.len() - i,
        {
            assert(carriers@.take(i + 1).drop_last() =~= carriers@.take(i as int));
            if carriers[i] != entity {
                rest.push(carriers[i]);
            }
            i += 1;
        }
        assert(carriers@.take(i as int) =~= carriers@);
        rest
    }

    /// Put entities behind a node that has none.
    fn put_behind(&mut self, instance_id: InstanceId, carriers: Vec<Entity>)
        requires
            !old(self).behind().contains_key(instance_id.value),
        ensures
            final(self).state() == old(self).state().with_behind(instance_id.value, carriers@),
    {
        if carriers.len() > 0 {
            self.behind.insert(instance_id.value, carriers);
        }
        assert(self.behind() =~= old(self).state().with_behind(
            instance_id.value,
            carriers@,
        ).behind);
    }
}

/// Indexing a node that was not indexed makes the index longer by one, indexing one that was leaves
/// its length, and either way it is not empty then. Every other node keeps its entity.
pub proof fn law_insert_counts_new_nodes(
    index: NodeEntityIndex,
    id: InstanceId,
    entity: Entity,
    other: InstanceId,
)
    ensures
        ({
            let after = index@.insert(id.value, entity);
            &&& after.dom().finite()
            &&& indexed(after, id) == Some(entity)
            &&& other != id ==> indexed(after, other) == indexed(index@, other)
            &&& after.len() == index@.len() + (if indexed(index@, id) is Some {
                0int
            } else {
                1
            })
            &&& after.len() > 0
        }),
{
    assert(index@.dom().finite());
}

/// Taking a node out makes the index shorter by one just when it was indexed. Every other node keeps
/// its entity.
pub proof fn law_remove_counts_indexed_nodes(
    index: NodeEntityIndex,
    id: InstanceId,
    other: InstanceId,
)
    ensures
        ({
            let after = index@.remove(id.value);
            &&& after.dom().finite()
            &&& indexed(after, id) is None
            &&& other != id ==> indexed(after, other) == indexed(index@, other)
            &&& after.len() == index@.len() - (if indexed(index@, id) is Some {
                1int
            } else {
                0
            })
        }),
{
    assert(index@.dom().finite());
}

/// Taking a node out right after it was indexed for the first time gives back the entity, and the
/// index as it was.
pub proof fn law_remove_undoes_insert(index: NodeEntityIndex, id: InstanceId, entity: Entity)
    requires
        indexed(index@, id) is None,
    ensures
        indexed(index@.insert(id.value, entity), id) == Some(entity),
        index@.insert(id.value, entity).remove(id.value) == index@,
{
    assert(index@.insert(id.value, entity).remove(id.value) =~= index@);
}

/// The index after the insert hook of an entity that carries `handle` (`None` when the component
/// is already gone again): the entity is named for the node, before the one that was.
pub open spec fn after_insert_hook(
    index: IndexState,
    handle: Option<GodotNodeHandle>,
    entity: Entity,
) -> IndexState {
    match handle {
        Some(h) => {
            let others = without(index.behind_at(h.id.value), entity);
            let behind = match indexed(index.named, h.id) {
                Some(named) if named != entity => others.push(named),
                _ => others,
            };
            IndexState {
                named: index.named.insert(h.id.value, entity),
                ..index.with_behind(h.id.value, behind)
            }
        },
        None => index,
    }
}

/// The index after the replace hook of an entity that still carries `handle`: that entity goes, and
/// no other. Where no entity is named for the node then, the last of those behind it is.
pub open spec fn after_replace_hook(
    index: IndexState,
    handle: Option<GodotNodeHandle>,
    entity: Entity,
) -> IndexState {
    match handle {
        Some(h) => {
            let others = without(index.behind_at(h.id.value), entity);
            match indexed(index.named, h.id) {
                Some(named) if named != entity => index.with_behind(h.id.value, others),
                _ => if others.len() == 0 {
                    IndexState {
                        named: index.named.remove(h.id.value),
                        ..index.with_behind(h.id.value, others)
                    }
                } else {
                    IndexState {
                        named: index.named.insert(h.id.value, others.last()),
                        ..index.with_behind(h.id.value, others.drop_last())
                    }
                },
            }
        },
        None => index,
    }
}

/// The component hook for a node handle that was added or changed, from any source: it indexes
/// the handle that `entity` carries now.
pub fn on_godot_node_handle_insert(
    index: &mut NodeEntityIndex,
    handle: Option<GodotNodeHandle>,
    entity: Entity,
)
    ensures
        final(index).state() == after_insert_hook(old(index).state(), handle, entity),
{
    if let Some(h) = handle {
        let id = h.instance_id();
        let mut behind = index.take_behind(id, entity);
        if let Some(named) = index.get(id) {
            if named != entity {
                behind.push(named);
            }
        }
        index.insert(id, entity);
        index.put_behind(id, behind);
        assert(index.state() =~= after_insert_hook(old(index).state(), handle, entity));
    }
}

/// The component hook for a node handle that `entity` is about to lose, while it can still be read: it
/// evicts the entry that is about to go stale, and the last of the entities that still carry the node
/// takes its place. Where the node is indexed under another entity, that entry is not stale and stays.
pub fn on_godot_node_handle_replace(
    index: &mut NodeEntityIndex,
    handle: Option<GodotNodeHandle>,
    entity: Entity,
)
    ensures
        final(index).state() == after_replace_hook(old(index).state(), handle, entity),
{
    if let Some(h) = handle {
        let id = h.instance_id();
        let mut behind = index.take_behind(id, entity);
        let keeps = match index.get(id) {
            Some(named) => named != entity,
            None => false,
        };
        if !keeps {
            match behind.pop() {
                Some(next) => index.insert(id, next),
                None => {
                    index.remove(id);
                },
            }
        }
        index.put_behind(id, behind);
        assert(index.state() =~= after_replace_hook(old(index).state(), handle, entity));
    }
}

/// What happens to the node handles of the world. A handle that overwrites another fires the
/// replace hook for the old one and then the insert hook for the new one.
pub enum HandleEvent {
    Attach { entity: Entity, handle: GodotNodeHandle },
    Detach { entity: Entity },
}

/// The handle that an entity carries.
pub open spec fn carried(world: Map<Entity, GodotNodeHandle>, entity: Entity) -> Option<
    GodotNodeHandle,
> {
    if world.contains_key(entity) {
        Some(world[entity])
    } else {
        None
    }
}

/// The handles that entities carry after an event.
pub open spec fn world_after(
    world: Map<Entity, GodotNodeHandle>,
    event: HandleEvent,
) -> Map<Entity, GodotNodeHandle> {
    match event {
        HandleEvent::Attach { entity, handle } => world.insert(entity, handle),
        HandleEvent::Detach { entity } => world.remove(entity),
    }
}

/// The index after the hooks that an event fires.
pub open spec fn index_after(
    index: IndexState,
    world: Map<Entity, GodotNodeHandle>,
    event: HandleEvent,
) -> IndexState {
    match event {
        HandleEvent::Attach { entity, handle } => after_insert_hook(
            after_replace_hook(index, carried(world, entity), entity),
            Some(handle),
            entity,
        ),
        HandleEvent::Detach { entity } => after_replace_hook(
            index,
            carried(world, entity),
            entity,
        ),
    }
}

/// Whether an entity carries the node with this number.
pub open spec fn carries(world: Map<Entity, GodotNodeHandle>, entity: Entity, id: i64) -> bool {
    world.contains_key(entity) && world[entity].id.value == id
}

/// Every entry of the index names an entity that carries the node.
pub open spec fn no_stale_entry(
    index: Map<i64, Entity>,
    world: Map<Entity, GodotNodeHandle>,
) -> bool {
    forall|id: i64| #[trigger] index.contains_key(id) ==> carries(world, index[id], id)
}

/// The index lists the node of every entity that carries a handle, under an entity that carries it,
/// and nothing else.
pub open spec fn mirrors(index: Map<i64, Entity>, world: Map<Entity, GodotNodeHandle>) -> bool {
    &&& forall|e: Entity| #[trigger]
        world.contains_key(e) ==> index.contains_key(world[e].id.value)
    &&& no_stale_entry(index, world)
}

/// No entity stands twice for a node.
pub open spec fn is_tidy(index: IndexState) -> bool {
    &&& forall|id: i64| (#[trigger] index.behind_at(id)).no_duplicates()
    &&& forall|id: i64| #[trigger]
        index.named.contains_key(id) ==> !index.behind_at(id).contains(index.named[id])
}

/// Whether entities carry a node and the index names none of them.
pub open spec fn hides(index: IndexState, id: i64) -> bool {
    index.behind_at(id).len() > 0 && !index.named.contains_key(id)
}

/// The index knows every entity that carries a handle, once and under its node, and no other, and it
/// names one of them for each node.
pub open spec fn tracks(index: IndexState, world: Map<Entity, GodotNodeHandle>) -> bool {
    &&& forall|id: i64, e: Entity| #[trigger] index.knows(id, e) <==> carries(world, e, id)
    &&& forall|id: i64| !#[trigger] hides(index, id)
    &&& is_tidy(index)
}

/// No two entities carry the same node.
pub open spec fn one_each(world: Map<Entity, GodotNodeHandle>) -> bool {
    forall|a: Entity, b: Entity|
        #![trigger world.contains_key(a), world.contains_key(b)]
        world.contains_key(a) && world.contains_key(b) && world[a].id == world[b].id ==> a == b
}

/// The handles that entities carry after the first `n` events.
pub open spec fn world_run(
    world: Map<Entity, GodotNodeHandle>,
    events: Seq<HandleEvent>,
    n: nat,
) -> Map<Entity, GodotNodeHandle>
    decreases n,
{
    if n == 0 {
        world
    } else {
        world_after(world_run(world, events, (n - 1) as nat), events[n - 1])
    }
}

/// The index after the hooks of the first `n` events.
pub open spec fn index_run(
    index: IndexState,
    world: Map<Entity, GodotNodeHandle>,
    events: Seq<HandleEvent>,
    n: nat,
) -> IndexState
    decreases n,
{
    if n == 0 {
        index
    } else {
        let k = (n - 1) as nat;
        index_after(index_run(index, world, events, k), world_run(world, events, k), events[n - 1])
    }
}

/// What the insert hook makes of an index.
proof fn lemma_insert_hook(index: IndexState, handle: GodotNodeHandle, entity: Entity)
    ensures
        ({
            let after = after_insert_hook(index, Some(handle), entity);
            &&& forall|id: i64, e: Entity| #[trigger]
                after.knows(id, e) <==> index.knows(id, e) || (e == entity && id == handle.id.value)
            &&& forall|id: i64| id != handle.id.value ==> #[trigger] after.behind_at(id)
                == index.behind_at(id)
            &&& indexed(after.named, handle.id) == Some(entity)
            &&& is_tidy(index) ==> is_tidy(after)
        }),
{
    let key = handle.id.value;
    let after = after_insert_hook(index, Some(handle), entity);
    let others = without(index.behind_at(key), entity);
    lemma_without(index.behind_at(key), entity);
    assert(forall|id: i64|
        id != key ==> #[trigger] after.behind_at(id) == index.behind_at(id));
    if let Some(named) = indexed(index.named, handle.id) {
        if named != entity {
            assert(after.behind_at(key) =~= others.push(named));
            assert forall|e: Entity| #[trigger]
                after.behind_at(key).contains(e) <==> others.contains(e) || e == named by {
                lemma_push_contains(others, named, e);
            }
        } else {
            assert(after.behind_at(key) =~= others);
        }
    } else {
        assert(after.behind_at(key) =~= others);
    }
    assert forall|id: i64, e: Entity| #[trigger]
        after.knows(id, e) <==> index.knows(id, e) || (e == entity && id == key) by {
        assert(id != key ==> after.behind_at(id) == index.behind_at(id));
        assert(others.contains(e) <==> index.behind_at(key).contains(e) && e != entity);
    }
    if is_tidy(index) {
        assert forall|id: i64| (#[trigger] after.behind_at(id)).no_duplicates() by {
            assert(index.behind_at(id).no_duplicates());
            if id == key && index.named.contains_key(key) {
                assert(!index.behind_at(key).contains(index.named[key]));
                assert(!others.contains(index.named[key]));
            }
        }
        assert forall|id: i64| #[trigger]
            after.named.contains_key(id) implies !after.behind_at(id).contains(after.named[id]) by {
            if id != key {
                assert(index.named.contains_key(id));
                assert(after.behind_at(id) == index.behind_at(id));
            }
        }
    }
}

/// What the replace hook makes of an index.
proof fn lemma_replace_hook(index: IndexState, handle: GodotNodeHandle, entity: Entity)
    ensures
        ({
            let after = after_replace_hook(index, Some(handle), entity);
            &&& forall|id: i64, e: Entity| #[trigger]
                after.knows(id, e) <==> index.knows(id, e) && !(e == entity && id
                    == handle.id.value)
            &&& forall|id: i64| id != handle.id.value ==> #[trigger] after.behind_at(id)
                == index.behind_at(id)
            &&& !hides(after, handle.id.value)
            &&& is_tidy(index) ==> is_tidy(after)
        }),
{
    let key = handle.id.value;
    let after = after_replace_hook(index, Some(handle), entity);
    let others = without(index.behind_at(key), entity);
    lemma_without(index.behind_at(key), entity);
    assert(forall|id: i64|
        id != key ==> #[trigger] after.behind_at(id) == index.behind_at(id));
    let keeps = match indexed(index.named, handle.id) {
        Some(named) => named != entity,
        None => false,
    };
    if keeps || others.len() == 0 {
        assert(after.behind_at(key) =~= others);
    } else {
        let rest = others.drop_last();
        assert(after.behind_at(key) =~= rest);
        assert(others =~= rest.push(others.last()));
        assert forall|e: Entity| #[trigger]
            others.contains(e) <==> rest.contains(e) || e == others.last() by {
            lemma_push_contains(rest, others.last(), e);
        }
        if is_tidy(index) {
            assert(index.behind_at(key).no_duplicates());
            if rest.contains(others.last()) {
                let i = choose|i: int| 0 <= i < rest.len() && rest[i] == others.last();
                assert(others[i] == others[others.len() - 1]);
            }
        }
    }
    assert forall|id: i64, e: Entity| #[trigger]
        after.knows(id, e) <==> index.knows(id, e) && !(e == entity && id == key) by {
        assert(id != key ==> after.behind_at(id) == index.behind_at(id));
        assert(others.contains(e) <==> index.behind_at(key).contains(e) && e != entity);
    }
    if is_tidy(index) {
        assert forall|id: i64| (#[trigger] after.behind_at(id)).no_duplicates() by {
            assert(index.behind_at(id).no_duplicates());
        }
        assert forall|id: i64| #[trigger]
            after.named.contains_key(id) implies !after.behind_at(id).contains(after.named[id]) by {
            if id != key || keeps {
                assert(index.named.contains_key(id));
                assert(!index.behind_at(id).contains(index.named[id]));
            }
            if id != key {
                assert(after.behind_at(id) == index.behind_at(id));
            }
        }
    }
}

/// What the hooks of an event make of an index: they forget that the entity carries the node that it
/// did, note that it carries the one that it does, and leave all else that the index knows. Of the
/// nodes that they are about none is hidden then, and one that is attached is indexed under its
/// entity; nothing changes for any other node.
pub proof fn law_hooks_note_what_happened(
    index: IndexState,
    world: Map<Entity, GodotNodeHandle>,
    event: HandleEvent,
)
    ensures
        ({
            let after = index_after(index, world, event);
            let (entity, gained) = match event {
                HandleEvent::Attach { entity, handle } => (entity, Some(handle.id.value)),
                HandleEvent::Detach { entity } => (entity, None),
            };
            &&& forall|id: i64, e: Entity| #[trigger]
                after.knows(id, e) <==> (index.knows(id, e) && !(e == entity && carries(
                    world,
                    entity,
                    id,
                ))) || (e == entity && gained == Some(id))
            &&& forall|id: i64|
                carries(world, entity, id) || gained == Some(id) ==> !#[trigger] hides(after, id)
            &&& forall|id: i64|
                !carries(world, entity, id) && gained != Some(id) ==> {
                    &&& #[trigger] after.behind_at(id) == index.behind_at(id)
                    &&& after.named.contains_key(id) == index.named.contains_key(id)
                    &&& after.named[id] == index.named[id]
                }
            &&& event matches HandleEvent::Attach { entity: e, handle } ==> indexed(
                after.named,
                handle.id,
            ) == Some(e)
            &&& is_tidy(index) ==> is_tidy(after)
        }),
{
    match event {
        HandleEvent::Attach { entity, handle } => {
            let given_up = carried(world, entity);
            let between = after_replace_hook(index, given_up, entity);
            if let Some(h) = given_up {
                lemma_replace_hook(index, h, entity);
            }
            lemma_insert_hook(between, handle, entity);
        },
        HandleEvent::Detach { entity } => {
            if let Some(h) = carried(world, entity) {
                lemma_replace_hook(index, h, entity);
            }
        },
    }
}

/// The hooks that an event fires touch no entry of another entity, but that of the node which the
/// event attaches: an entity that is named for the node it carries stays named while others lose or
/// change theirs.
pub proof fn law_hooks_spare_other_entities(
    index: IndexState,
    world: Map<Entity, GodotNodeHandle>,
    event: HandleEvent,
    other: Entity,
    id: InstanceId,
)
    requires
        indexed(index.named, id) == Some(other),
        event matches HandleEvent::Attach { entity, handle } ==> entity != other && handle.id != id,
        event matches HandleEvent::Detach { entity } ==> entity != other,
    ensures
        indexed(index_after(index, world, event).named, id) == Some(other),
{
}

/// When the entity that is named for a node gives it up while others still carry it, the one of them
/// that got the node last takes its place.
pub proof fn law_last_carrier_left_is_named(
    index: IndexState,
    world: Map<Entity, GodotNodeHandle>,
    entity: Entity,
)
    requires
        tracks(index, world),
        world.contains_key(entity),
        indexed(index.named, world[entity].id) == Some(entity),
    ensures
        ({
            let id = world[entity].id;
            let after = index_after(index, world, HandleEvent::Detach { entity });
            let left = index.behind_at(id.value);
            &&& forall|e: Entity| #[trigger]
                left.contains(e) <==> e != entity && carries(world, e, id.value)
            &&& left.len() > 0 ==> {
                &&& indexed(after.named, id) == Some(left.last())
                &&& after.behind_at(id.value) == left.drop_last()
            }
            &&& left.len() == 0 ==> indexed(after.named, id) is None
        }),
{
    let id = world[entity].id;
    let left = index.behind_at(id.value);
    lemma_without_stranger(left, entity);
    assert forall|e: Entity| #[trigger]
        left.contains(e) <==> e != entity && carries(world, e, id.value) by {
        assert(index.knows(id.value, e) <==> carries(world, e, id.value));
    }
    let after = index_after(index, world, HandleEvent::Detach { entity });
    if left.len() > 0 {
        assert(after.behind_at(id.value) =~= left.drop_last());
    }
}

proof fn lemma_without_stranger(carriers: Seq<Entity>, entity: Entity)
    requires
        !carriers.contains(entity),
    ensures
        without(carriers, entity) == carriers,
    decreases carriers.len(),
{
    if carriers.len() > 0 {
        assert(carriers =~= carriers.drop_last().push(carriers.last()));
        lemma_push_contains(carriers.drop_last(), carriers.last(), entity);
        lemma_without_stranger(carriers.drop_last(), entity);
    }
}

/// The hooks that one event fires keep the index complete and free of stale entries, whatever happens
/// and however many entities carry a node.
pub proof fn law_hooks_keep_index_complete(
    index: IndexState,
    world: Map<Entity, GodotNodeHandle>,
    event: HandleEvent,
)
    requires
        tracks(index, world),
    ensures
        tracks(index_after(index, world, event), world_after(world, event)),
{
    let after = index_after(index, world, event);
    let w2 = world_after(world, event);
    law_hooks_note_what_happened(index, world, event);
    assert forall|id: i64, e: Entity| #[trigger]
        after.knows(id, e) <==> carries(w2, e, id) by {
        assert(index.knows(id, e) <==> carries(world, e, id));
    }
    assert forall|id: i64| !#[trigger] hides(after, id) by {
        assert(!hides(index, id));
        assert(after.behind_at(id) == after.behind_at(id));
    }
}

/// An index that knows every carrier lists every node that is carried, under an entity that carries
/// it, and nothing else.
pub proof fn law_tracking_index_is_complete(
    index: IndexState,
    world: Map<Entity, GodotNodeHandle>,
)
    requires
        tracks(index, world),
    ensures
        mirrors(index.named, world),
{
    assert forall|e: Entity| #[trigger] world.contains_key(e) implies index.named.contains_key(
        world[e].id.value,
    ) by {
        let id = world[e].id.value;
        assert(carries(world, e, id));
        assert(index.knows(id, e));
        assert(!hides(index, id));
    }
    assert forall|id: i64| #[trigger] index.named.contains_key(id) implies carries(
        world,
        index.named[id],
        id,
    ) by {
        assert(index.knows(id, index.named[id]));
    }
}

/// Where each node has one entity, a complete index gives exactly that one.
pub proof fn law_complete_index_finds_the_entity(
    index: Map<i64, Entity>,
    world: Map<Entity, GodotNodeHandle>,
    entity: Entity,
)
    requires
        mirrors(index, world),
        one_each(world),
        world.contains_key(entity),
    ensures
        indexed(index, world[entity].id) == Some(entity),
{
    let id = world[entity].id;
    assert(carries(world, index[id.value], id.value));
}

/// Through any sequence of handle events the index stays complete: looking up the node of any entity
/// gives an entity that carries it, and nothing else is listed.
pub proof fn law_index_is_complete(events: Seq<HandleEvent>, n: nat)
    requires
        n <= events.len(),
    ensures
        tracks(
            index_run(IndexState::empty(), Map::empty(), events, n),
            world_run(Map::empty(), events, n),
        ),
        mirrors(
            index_run(IndexState::empty(), Map::empty(), events, n).named,
            world_run(Map::empty(), events, n),
        ),
    decreases n,
{
    let index = index_run(IndexState::empty(), Map::empty(), events, n);
    let world = world_run(Map::empty(), events, n);
    if n > 0 {
        let k = (n - 1) as nat;
        law_index_is_complete(events, k);
        law_hooks_keep_index_complete(
            index_run(IndexState::empty(), Map::empty(), events, k),
            world_run(Map::empty(), events, k),
            events[k as int],
        );
    }
    law_tracking_index_is_complete(index, world);
}

/// Looking a node up gives the entity that is indexed under its id, and none just when nothing is.
pub proof fn law_lookup_goes_by_the_id(index: Map<i64, Entity>, id: InstanceId)
    ensures
        indexed(index, id) is Some <==> index.contains_key(id.value),
        indexed(index, id) is Some ==> indexed(index, id)->Some_0 == index[id.value],
{
}

} // verus!
