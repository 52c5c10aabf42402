use std::collections::{HashMap, HashSet};
use std::rc::Rc;

use godot_bevy::app::bevy_app::BevyApp;
use godot_bevy::app::events::{gd_send_event, warning_key};
use godot_bevy::ids::{Entity, GodotNodeHandle, InstanceId};
use godot_bevy::node_index::{
    on_godot_node_handle_insert, on_godot_node_handle_replace, NodeEntityIndex,
};
use godot_bevy::scene_tree::collision::NodeSignals;
use godot_bevy::scene_tree::message::{SceneTreeMessage, SceneTreeMessageType};
use godot_bevy::scene_tree::mirror::{
    create_scene_tree_entity, spawn_demand, EntityFacts, EntityTable, MirrorCommand,
    MirrorContext, NodeObservation, ObservedMessage,
};

fn id(n: i64) -> InstanceId {
    InstanceId::from_i64(n)
}

fn handle(n: i64) -> GodotNodeHandle {
    GodotNodeHandle::from_instance_id(id(n))
}

fn observed(n: i64, message_type: SceneTreeMessageType, parent: Option<i64>) -> ObservedMessage {
    ObservedMessage {
        message: SceneTreeMessage {
            node_id: handle(n),
            message_type,
            node_type: None,
            node_name: None,
            parent_id: None,
            collision_mask: None,
            groups: None,
        },
        node: NodeObservation {
            valid: true,
            name: format!("Node{n}"),
            class_hierarchy: Rc::new(vec![]),
            signals: NodeSignals {
                body_entered: false,
                body_exited: false,
                area_entered: false,
                area_exited: false,
            },
            groups: vec![],
            parent: parent.map(id),
            excluded: false,
        },
    }
}

/// The handles that entities carry, changed as the world changes them: with the hooks.
struct World {
    handles: HashMap<u64, GodotNodeHandle>,
}

impl World {
    fn detach(&mut self, index: &mut NodeEntityIndex, entity: Entity) {
        on_godot_node_handle_replace(index, self.handles.get(&entity.to_bits()).copied(), entity);
        self.handles.remove(&entity.to_bits());
    }

    fn attach(&mut self, index: &mut NodeEntityIndex, entity: Entity, handle: GodotNodeHandle) {
        self.detach(index, entity);
        self.handles.insert(entity.to_bits(), handle);
        on_godot_node_handle_insert(index, Some(handle), entity);
    }

    fn perform(&mut self, index: &mut NodeEntityIndex, commands: &[MirrorCommand]) {
        for command in commands {
            match command {
                MirrorCommand::Refresh { entity, node, .. } => self.attach(index, *entity, *node),
                MirrorCommand::Decorate { entity, node, .. } => self.attach(index, *entity, *node),
                MirrorCommand::Despawn { entity } => self.detach(index, *entity),
                MirrorCommand::Strip { entity } => self.detach(index, *entity),
                _ => {}
            }
        }
    }
}

#[test]
fn hooks_lead_back_to_the_index_of_the_batch() {
    let mut index = NodeEntityIndex::default();
    let mut world = World { handles: HashMap::new() };
    world.attach(&mut index, Entity::from_bits(1), handle(11));
    world.attach(&mut index, Entity::from_bits(2), handle(12));
    let mut table = EntityTable::new();
    table.insert(Entity::from_bits(1), EntityFacts { protected: true, decorated: true });
    table.insert(Entity::from_bits(2), EntityFacts { protected: false, decorated: true });
    let messages = vec![
        observed(11, SceneTreeMessageType::NodeRemoved, None),
        observed(13, SceneTreeMessageType::NodeAdded, Some(12)),
        observed(13, SceneTreeMessageType::NodeRemoved, None),
        observed(11, SceneTreeMessageType::NodeAdded, None),
        observed(12, SceneTreeMessageType::NodeAdded, Some(11)),
        observed(13, SceneTreeMessageType::NodeAdded, Some(12)),
    ];
    assert_eq!(spawn_demand(&index, &messages), 3);
    let fresh: Vec<Entity> = (10..13).map(Entity::from_bits).collect();
    let batch = create_scene_tree_entity(
        &mut index,
        &table,
        &MirrorContext { scene_root: id(1), collision_watcher: false },
        &messages,
        &fresh,
    );
    let expected = [(11, Some(11)), (12, Some(2)), (13, Some(12))];
    for (node, entity) in expected {
        assert_eq!(index.get(id(node)), entity.map(Entity::from_bits));
    }
    world.perform(&mut index, &batch.commands);
    for (node, entity) in expected {
        assert_eq!(index.get(id(node)), entity.map(Entity::from_bits));
    }
    // Every entity that carries a handle is listed, and nothing else.
    assert_eq!(index.len(), world.handles.len());
    for (entity, handle) in &world.handles {
        assert_eq!(index.get_handle(*handle), Some(Entity::from_bits(*entity)));
    }
}

#[test]
fn shared_node_is_still_found_after_the_commands() {
    let mut index = NodeEntityIndex::default();
    let mut world = World { handles: HashMap::new() };
    for bits in [1, 2] {
        world.attach(&mut index, Entity::from_bits(bits), handle(11));
    }
    let mut table = EntityTable::new();
    table.insert(Entity::from_bits(2), EntityFacts { protected: false, decorated: true });
    let messages = vec![observed(11, SceneTreeMessageType::NodeRemoved, None)];
    let batch = create_scene_tree_entity(
        &mut index,
        &table,
        &MirrorContext { scene_root: id(1), collision_watcher: false },
        &messages,
        &vec![],
    );
    assert_eq!(index.get(id(11)), None);
    world.perform(&mut index, &batch.commands);
    // The mirror entity is gone; the other one still carries the node.
    assert_eq!(world.handles.len(), 1);
    assert_eq!(index.get(id(11)), Some(Entity::from_bits(1)));
}

#[test]
fn nodes_and_entities_stay_paired() {
    let mut index = NodeEntityIndex::default();
    let messages: Vec<ObservedMessage> = (20..25)
        .map(|n| observed(n, SceneTreeMessageType::NodeAdded, None))
        .collect();
    let fresh: Vec<Entity> = (100..105).map(Entity::from_bits).collect();
    create_scene_tree_entity(
        &mut index,
        &EntityTable::new(),
        &MirrorContext { scene_root: id(1), collision_watcher: false },
        &messages,
        &fresh,
    );
    let entities: HashSet<u64> =
        (20..25).map(|n| index.get(id(n)).unwrap().to_bits()).collect();
    assert_eq!(entities.len(), 5);
}

#[test]
fn made_up_names_do_not_grow_the_warner() {
    let registered = vec!["jump".to_string(), "score".to_string()];
    let mut keys = HashSet::new();
    for n in 0..100 {
        for name in [format!("made up {n}"), "jump".to_string(), "score".to_string()] {
            let looked_up = gd_send_event(true, Some(&registered), &name);
            if let Some(key) = warning_key(looked_up, false, &name) {
                keys.insert(key.to_string());
            }
        }
    }
    assert_eq!(keys.len(), 3);
}

#[test]
fn prefix_and_suffix_run_once_per_frame() {
    let mut node: BevyApp<(), ()> = BevyApp::new();
    node.finish_initialize((), 0);
    for steps in [0u32, 3, 1, 0] {
        let mut startups = 0;
        let mut prefixes = 0;
        let first = !node.started;
        for _ in 0..steps {
            let preamble = node.begin_physics_process(false).unwrap();
            startups += preamble.need_startup as u32;
            prefixes += preamble.need_prefix as u32;
            node.end_physics_process(false);
        }
        let preamble = node.begin_process(false).unwrap();
        assert_eq!(preamble.need_prefix, steps == 0);
        startups += preamble.need_startup as u32;
        prefixes += preamble.need_prefix as u32;
        assert_eq!(node.end_process(false).physics_steps, steps);
        assert_eq!(startups, first as u32);
        assert_eq!(prefixes, 1);
    }
}
