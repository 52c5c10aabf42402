use godot_bevy::ids::{Entity, GodotNodeHandle, InstanceId};
use godot_bevy::node_index::{
    on_godot_node_handle_insert, on_godot_node_handle_replace, NodeEntityIndex,
};

fn id(n: i64) -> InstanceId {
    InstanceId::from_i64(n)
}

fn handle(n: i64) -> GodotNodeHandle {
    GodotNodeHandle::from_instance_id(id(n))
}

fn entity(n: u64) -> Entity {
    Entity::from_bits(n)
}

#[test]
fn instance_id_refuses_zero() {
    assert_eq!(InstanceId::try_from_i64(0), None);
    assert_eq!(InstanceId::try_from_i64(-5), Some(id(-5)));
    assert_eq!(id(7).to_i64(), 7);
    assert_eq!(entity(9).to_bits(), 9);
}

#[test]
fn index_round_trip() {
    let mut index = NodeEntityIndex::default();
    assert!(index.is_empty());
    assert_eq!(index.get(id(7)), None);
    index.insert(id(7), entity(42));
    assert_eq!(index.get(id(7)), Some(entity(42)));
    assert_eq!(index.get_handle(handle(7)), Some(entity(42)));
    assert!(index.contains(id(7)));
    assert!(index.contains_handle(handle(7)));
    assert!(!index.contains_handle(handle(8)));
    assert_eq!(index.len(), 1);
    assert!(!index.is_empty());
    assert_eq!(index.remove(id(7)), Some(entity(42)));
    assert_eq!(index.remove(id(7)), None);
    assert!(index.is_empty());
}

#[test]
fn index_insert_replaces_the_entity() {
    let mut index = NodeEntityIndex::default();
    index.insert(id(7), entity(1));
    index.insert(id(7), entity(2));
    assert_eq!(index.get(id(7)), Some(entity(2)));
    assert_eq!(index.len(), 1);
}

#[test]
fn hooks_evict_the_stale_handle() {
    let mut index = NodeEntityIndex::default();
    on_godot_node_handle_insert(&mut index, Some(handle(1)), entity(10));
    // The handle of the entity is overwritten: first the old one is evicted.
    on_godot_node_handle_replace(&mut index, Some(handle(1)), entity(10));
    on_godot_node_handle_insert(&mut index, Some(handle(2)), entity(10));
    assert_eq!(index.get(id(1)), None);
    assert_eq!(index.get(id(2)), Some(entity(10)));
    assert_eq!(index.len(), 1);
}

#[test]
fn hooks_without_a_handle_do_nothing() {
    let mut index = NodeEntityIndex::default();
    on_godot_node_handle_insert(&mut index, Some(handle(1)), entity(10));
    on_godot_node_handle_insert(&mut index, None, entity(11));
    on_godot_node_handle_replace(&mut index, None, entity(11));
    assert_eq!(index.get(id(1)), Some(entity(10)));
    assert_eq!(index.len(), 1);
}

#[test]
fn hooks_spare_the_entry_of_another_entity() {
    let mut index = NodeEntityIndex::default();
    on_godot_node_handle_insert(&mut index, Some(handle(1)), entity(10));
    on_godot_node_handle_insert(&mut index, Some(handle(1)), entity(20));
    assert_eq!(index.get(id(1)), Some(entity(20)));
    // The first loses its handle; the second still carries the node.
    on_godot_node_handle_replace(&mut index, Some(handle(1)), entity(10));
    assert_eq!(index.get(id(1)), Some(entity(20)));
    on_godot_node_handle_replace(&mut index, Some(handle(1)), entity(20));
    assert_eq!(index.get(id(1)), None);
}

#[test]
fn last_carrier_left_takes_the_place() {
    let mut index = NodeEntityIndex::default();
    for bits in [10, 20, 30, 40] {
        on_godot_node_handle_insert(&mut index, Some(handle(1)), entity(bits));
    }
    assert_eq!(index.get(id(1)), Some(entity(40)));
    assert_eq!(index.len(), 1);
    // One that is not named goes without a trace.
    on_godot_node_handle_replace(&mut index, Some(handle(1)), entity(30));
    assert_eq!(index.get(id(1)), Some(entity(40)));
    on_godot_node_handle_replace(&mut index, Some(handle(1)), entity(40));
    assert_eq!(index.get(id(1)), Some(entity(20)));
    // One that gets the node again is named again, once.
    on_godot_node_handle_insert(&mut index, Some(handle(1)), entity(10));
    assert_eq!(index.get(id(1)), Some(entity(10)));
    on_godot_node_handle_replace(&mut index, Some(handle(1)), entity(10));
    assert_eq!(index.get(id(1)), Some(entity(20)));
    on_godot_node_handle_replace(&mut index, Some(handle(1)), entity(20));
    assert_eq!(index.get(id(1)), None);
    assert!(index.is_empty());
}

#[test]
fn hidden_carrier_is_named_by_the_next_hook() {
    let mut index = NodeEntityIndex::default();
    on_godot_node_handle_insert(&mut index, Some(handle(1)), entity(10));
    on_godot_node_handle_insert(&mut index, Some(handle(1)), entity(20));
    assert_eq!(index.remove(id(1)), Some(entity(20)));
    assert_eq!(index.get(id(1)), None);
    on_godot_node_handle_replace(&mut index, Some(handle(1)), entity(20));
    assert_eq!(index.get(id(1)), Some(entity(10)));
}

#[test]
fn index_counts_its_nodes() {
    let mut index = NodeEntityIndex::default();
    index.insert(id(1), entity(10));
    index.insert(id(2), entity(20));
    assert_eq!(index.len(), 2);
    index.insert(id(2), entity(21));
    assert_eq!(index.len(), 2);
    assert!(!index.is_empty());
    assert_eq!(index.remove(id(3)), None);
    assert_eq!(index.len(), 2);
    assert_eq!(index.remove(id(2)), Some(entity(21)));
    assert_eq!(index.len(), 1);
    assert_eq!(index.get(id(1)), Some(entity(10)));
}
