use std::rc::Rc;

use godot_bevy::ids::{Entity, GodotNodeHandle, InstanceId};
use godot_bevy::node_index::NodeEntityIndex;
use godot_bevy::scene_tree::collision::{
    batch_connect_collision_signals, collider_follow_up, collider_kind, collision_mask_from_node,
    collision_mask_has, connect_bodies, is_collision_body, seed_overlaps, BodyFollowUp,
    BodyReading, ColliderFollowUp, ColliderKind, ColliderReading, CollisionMessageType,
    CollisionSignal, ConnectAction, ConnectEvent, ConnectPlan, ConnectStage, NodeSignals, OverlapReading, PendingCollisionBody, SeededContact, SignalConnection,
    COLLISION_MASK_AREA_ENTERED, COLLISION_MASK_AREA_EXITED, COLLISION_MASK_BODY_ENTERED,
    COLLISION_MASK_BODY_EXITED,
};
use godot_bevy::scene_tree::connect::{connect_scene_tree, signal_name};
use godot_bevy::scene_tree::hierarchy::{
    get_inheritance_hierarchy, next_marker_class, ChainStep, ClassWalk, HierarchyCache,
};
use godot_bevy::scene_tree::message::{
    initial_scene_tree_messages, InitialTreeAnalysis, SceneTreeMessage, SceneTreeMessageType,
};
use godot_bevy::scene_tree::mirror::{
    create_scene_tree_entity, names_are_known, read_scene_tree_messages, spawn_demand,
    try_process_node_renamed_messages_fast_path, EntityFacts, EntityTable, MirrorCommand,
    MirrorContext, NodeObservation, ObservedMessage,
};
use godot_bevy::scene_tree::pause::{mirror_tree_pause_to_virtual, PauseAction, PauseBridge};
use godot_bevy::scene_tree::plugin::{GodotSceneTreePlugin, Groups};
use godot_bevy::scene_tree::reader::{
    register_scene_tree_watcher, write_batch, write_scene_tree_messages, SceneTreeMessageReader,
};
use godot_bevy::scene_tree::startup::{
    initialize_scene_tree, StartupAction, StartupEvent, StartupStage,
};
use godot_bevy::scene_tree::tree::{
    find_node_by_name, get_bevy_app_child, traverse_fallback, SceneNode, BEVY_APP_AUTOLOAD_NAME,
};

fn id(n: i64) -> InstanceId {
    InstanceId::from_i64(n)
}

fn handle(n: i64) -> GodotNodeHandle {
    GodotNodeHandle::from_instance_id(id(n))
}

fn entity(n: u64) -> Entity {
    Entity::from_bits(n)
}

fn message(n: i64, message_type: SceneTreeMessageType) -> SceneTreeMessage {
    SceneTreeMessage {
        node_id: handle(n),
        message_type,
        node_type: None,
        node_name: None,
        parent_id: None,
        collision_mask: None,
        groups: None,
    }
}

fn no_signals() -> NodeSignals {
    NodeSignals { body_entered: false, body_exited: false, area_entered: false, area_exited: false }
}

fn observed(n: i64, message_type: SceneTreeMessageType) -> ObservedMessage {
    ObservedMessage {
        message: message(n, message_type),
        node: NodeObservation {
            valid: true,
            name: format!("Node{n}"),
            class_hierarchy: Rc::new(vec!["Node".to_string(), "Object".to_string()]),
            signals: no_signals(),
            groups: vec!["things".to_string()],
            parent: None,
            excluded: false,
        },
    }
}

fn context() -> MirrorContext {
    MirrorContext { scene_root: id(1), collision_watcher: true }
}

fn describe(commands: &[MirrorCommand]) -> Vec<String> {
    let mut r = Vec::new();
    for command in commands {
        r.push(match command {
            MirrorCommand::Refresh { entity, node, name } => {
                format!("refresh {} {} {}", entity.to_bits(), node.id.to_i64(), name)
            }
            MirrorCommand::Decorate { entity, node, name, groups, class_hierarchy } => format!(
                "decorate {} {} {} {} {}",
                entity.to_bits(),
                node.id.to_i64(),
                name,
                groups.copy().into_names().join(","),
                class_hierarchy.join("<")
            ),
            MirrorCommand::SetParent { entity, parent } => {
                format!("below {} {}", entity.to_bits(), parent.to_bits())
            }
            MirrorCommand::ClearParent { entity, missing } => {
                format!("loose {} {:?}", entity.to_bits(), missing.map(|m| m.to_i64()))
            }
            MirrorCommand::Despawn { entity } => format!("despawn {}", entity.to_bits()),
            MirrorCommand::Strip { entity } => format!("strip {}", entity.to_bits()),
            MirrorCommand::Rename { entity, name } => {
                format!("rename {} {}", entity.to_bits(), name)
            }
        });
    }
    r
}

fn node(n: i64, name: &str, excluded: bool, children: Vec<SceneNode>) -> SceneNode {
    SceneNode { id: id(n), name: name.to_string(), excluded, children }
}

fn small_tree() -> SceneNode {
    node(
        1,
        "root",
        false,
        vec![
            node(2, "A", false, vec![node(3, "X", false, vec![])]),
            node(4, "B", true, vec![node(5, "X", false, vec![])]),
            node(6, "C", false, vec![]),
        ],
    )
}

fn ids_of(messages: &[SceneTreeMessage]) -> Vec<i64> {
    messages.iter().map(|m| m.node_id.id.to_i64()).collect()
}

#[test]
fn scene_tree_plugin_configuration() {
    assert!(GodotSceneTreePlugin::default().auto_despawn_children);
    assert!(GodotSceneTreePlugin::default().config().auto_despawn_children);
    let keep = GodotSceneTreePlugin { auto_despawn_children: false };
    assert!(!keep.config().auto_despawn_children);
}

#[test]
fn groups_of_a_node() {
    let groups = Groups::from(vec!["enemies".to_string(), "boss".to_string()]);
    assert!(groups.is("boss"));
    assert!(groups.is("enemies"));
    assert!(!groups.is("bos"));
    assert!(!Groups::from(vec![]).is(""));
    assert_eq!(groups.copy().into_names(), vec!["enemies", "boss"]);
}

#[test]
fn walk_of_the_tree_skips_excluded_branches() {
    let messages = traverse_fallback(&small_tree());
    assert_eq!(ids_of(&messages), vec![1, 2, 3, 6]);
    for m in &messages {
        assert_eq!(m.message_type, SceneTreeMessageType::NodeAdded);
        assert!(m.node_type.is_none() && m.node_name.is_none() && m.parent_id.is_none());
        assert!(m.collision_mask.is_none() && m.groups.is_none());
    }
    assert!(traverse_fallback(&node(9, "gone", true, vec![])).is_empty());
}

#[test]
fn search_by_name_takes_the_first_in_tree_order() {
    let tree = small_tree();
    assert_eq!(find_node_by_name(&tree, "X"), Some(id(3)));
    assert_eq!(find_node_by_name(&tree, "root"), Some(id(1)));
    // Exclusion from the mirror does not hide a node here.
    assert_eq!(find_node_by_name(&tree, "B"), Some(id(4)));
    assert_eq!(find_node_by_name(&tree, "nope"), None);
}

#[test]
fn children_of_the_application_node() {
    let tree = small_tree();
    assert_eq!(BEVY_APP_AUTOLOAD_NAME, "BevyAppSingleton");
    assert_eq!(get_bevy_app_child(Some(Some(id(70))), Some(&tree), "X"), Some(id(70)));
    assert_eq!(get_bevy_app_child(Some(None), Some(&tree), "X"), None);
    assert_eq!(get_bevy_app_child(None, Some(&tree), "X"), Some(id(3)));
    assert_eq!(get_bevy_app_child(None, None, "X"), None);
}

#[test]
fn tree_signals_are_connected_without_the_optimized_watcher() {
    assert!(connect_scene_tree(true, true).is_empty());
    let names: Vec<&str> = connect_scene_tree(true, false).into_iter().map(signal_name).collect();
    assert_eq!(names, vec!["node_added", "node_removed", "node_renamed"]);
}

#[test]
fn initial_messages_from_the_analysis() {
    let analysis = InitialTreeAnalysis {
        instance_ids: vec![2, 3, 4],
        node_types: vec!["Node2D".to_string(), "Area2D".to_string()],
        node_names: Some(vec!["A".to_string()]),
        parent_ids: Some(vec![0, 2]),
        collision_masks: Some(vec![256, 15]),
        groups: Some(vec![vec![], vec!["g".to_string()]]),
    };
    let messages = initial_scene_tree_messages(Some(&analysis), &small_tree());
    assert_eq!(ids_of(&messages), vec![2, 3]);
    assert_eq!(messages[0].node_type.as_deref(), Some("Node2D"));
    assert_eq!(messages[0].node_name.as_deref(), Some("A"));
    assert_eq!(messages[0].parent_id, None);
    assert_eq!(messages[0].collision_mask, None);
    assert_eq!(messages[0].groups, Some(vec![]));
    assert_eq!(messages[1].node_name, None);
    assert_eq!(messages[1].parent_id, Some(id(2)));
    assert_eq!(messages[1].collision_mask, Some(15));
    assert_eq!(messages[1].groups, Some(vec!["g".to_string()]));
    assert_eq!(ids_of(&initial_scene_tree_messages(None, &small_tree())), vec![1, 2, 3, 6]);
}

#[test]
fn backlog_is_dropped_after_the_snapshot() {
    let mut stage = StartupStage::Snapshot;
    let event = StartupEvent::Snapshot { analysis: None, root: small_tree() };
    match initialize_scene_tree(&mut stage, event) {
        StartupAction::Mirror(messages) => assert_eq!(ids_of(&messages), vec![1, 2, 3, 6]),
        StartupAction::DropBacklog => panic!("too early"),
    }
    assert_eq!(stage, StartupStage::Mirror);
    let action = initialize_scene_tree(&mut stage, StartupEvent::Mirrored);
    assert!(matches!(action, StartupAction::DropBacklog));
    assert_eq!(stage, StartupStage::Over);
}

#[test]
fn a_copy_of_a_message_is_the_message() {
    let mut m = message(3, SceneTreeMessageType::NodeRenamed);
    m.node_name = Some("N".to_string());
    m.groups = Some(vec!["g".to_string()]);
    let c = m.copy();
    assert_eq!(c.node_id, m.node_id);
    assert_eq!(c.message_type, m.message_type);
    assert_eq!(c.node_name, m.node_name);
    assert_eq!(c.groups, m.groups);
}

#[test]
fn collision_masks() {
    let mut signals = no_signals();
    assert_eq!(collision_mask_from_node(&signals), 0);
    signals.body_entered = true;
    signals.area_exited = true;
    assert_eq!(collision_mask_from_node(&signals), 9);
    let all = NodeSignals {
        body_entered: true,
        body_exited: true,
        area_entered: true,
        area_exited: true,
    };
    assert_eq!(collision_mask_from_node(&all), 15);
    assert!(collision_mask_has(9, COLLISION_MASK_BODY_ENTERED));
    assert!(!collision_mask_has(9, COLLISION_MASK_BODY_EXITED));
    assert!(!collision_mask_has(9, COLLISION_MASK_AREA_ENTERED));
    assert!(collision_mask_has(9, COLLISION_MASK_AREA_EXITED));
    assert!(is_collision_body(1));
    assert!(is_collision_body(4));
    assert!(!is_collision_body(2 | 8));
}

#[test]
fn colliders_by_their_chain() {
    let chain = |names: &[&str]| -> Vec<String> { names.iter().map(|n| n.to_string()).collect() };
    assert_eq!(collider_kind(&chain(&["Coin", "Area2D", "Node2D"])), ColliderKind::Area2D);
    assert_eq!(collider_kind(&chain(&["Area3D", "Node3D"])), ColliderKind::Area3D);
    assert_eq!(collider_kind(&chain(&["RigidBody2D"])), ColliderKind::Other);
}

fn body(n: i64, mask: u8) -> PendingCollisionBody {
    PendingCollisionBody { node_id: id(n), mask, kind: ColliderKind::Other }
}

#[test]
fn bulk_connection() {
    let bodies = vec![body(5, 3), body(6, 15)];
    match batch_connect_collision_signals(true, &bodies, &vec![]) {
        ConnectPlan::Bulk { ids, masks } => {
            assert_eq!(ids, vec![5, 6]);
            assert_eq!(masks, vec![3, 15]);
        }
        ConnectPlan::OneByOne { .. } => panic!("bulk operations are there"),
    }
}

#[test]
fn connection_one_by_one() {
    let bodies = vec![body(5, 3), body(6, 1), body(7, 12), body(5, 3), body(8, 1)];
    let readings = vec![
        BodyReading { valid: true, connected: false },
        BodyReading { valid: false, connected: false },
        BodyReading { valid: true, connected: false },
        BodyReading { valid: true, connected: false },
        BodyReading { valid: true, connected: true },
    ];
    let connection = |n: i64, signal: CollisionSignal, report: CollisionMessageType| {
        SignalConnection { node_id: id(n), signal, report }
    };
    match batch_connect_collision_signals(false, &bodies, &readings) {
        ConnectPlan::OneByOne { connections } => assert_eq!(
            connections,
            vec![
                connection(5, CollisionSignal::BodyEntered, CollisionMessageType::Started),
                connection(5, CollisionSignal::BodyExited, CollisionMessageType::Ended),
                connection(7, CollisionSignal::AreaEntered, CollisionMessageType::Started),
                connection(7, CollisionSignal::AreaExited, CollisionMessageType::Ended),
            ]
        ),
        ConnectPlan::Bulk { .. } => panic!("bulk operations are not there"),
    }
}

#[test]
fn follow_up_of_a_connected_body() {
    let reading = ColliderReading {
        valid: true,
        is_area_2d: true,
        is_area_3d: false,
        rigid_2d_monitor: None,
        rigid_3d_monitor: Some(false),
    };
    assert_eq!(collider_follow_up(ColliderKind::Area2D, &reading), ColliderFollowUp::SeedArea2D);
    assert_eq!(collider_follow_up(ColliderKind::Area3D, &reading), ColliderFollowUp::Nothing);
    assert_eq!(
        collider_follow_up(ColliderKind::Other, &reading),
        ColliderFollowUp::WarnContactMonitor
    );
    let on = ColliderReading { rigid_2d_monitor: Some(true), ..reading };
    assert_eq!(collider_follow_up(ColliderKind::Other, &on), ColliderFollowUp::Nothing);
    let gone = ColliderReading { valid: false, ..reading };
    assert_eq!(collider_follow_up(ColliderKind::Area2D, &gone), ColliderFollowUp::Nothing);
}

#[test]
fn overlaps_are_reported_as_contacts() {
    let contact = |n: i64| SeededContact {
        other: id(n),
        area: id(9),
        report: CollisionMessageType::Started,
    };
    let reading = OverlapReading {
        has_bodies: true,
        bodies: vec![id(2), id(3)],
        has_areas: true,
        areas: vec![id(4)],
    };
    assert_eq!(seed_overlaps(id(9), &reading), vec![contact(2), contact(3), contact(4)]);
    let flagless = OverlapReading { has_bodies: false, ..reading };
    assert_eq!(seed_overlaps(id(9), &flagless), vec![contact(4)]);
}

#[test]
fn new_nodes_are_decorated_and_linked() {
    let mut index = NodeEntityIndex::default();
    let mut child = observed(11, SceneTreeMessageType::NodeAdded);
    child.message.parent_id = Some(id(10));
    child.message.node_name = Some("Kid".to_string());
    child.message.groups = Some(vec!["a".to_string(), "b".to_string()]);
    child.message.collision_mask = Some(1);
    child.node.class_hierarchy = Rc::new(vec!["Area2D".to_string()]);
    let mut top = observed(10, SceneTreeMessageType::NodeAdded);
    top.node.parent = Some(id(1));
    let messages = vec![top, child];
    assert_eq!(spawn_demand(&index, &messages), 2);
    let batch = create_scene_tree_entity(
        &mut index,
        &EntityTable::new(),
        &context(),
        &messages,
        &vec![entity(100), entity(101)],
    );
    assert_eq!(
        describe(&batch.commands),
        vec![
            "decorate 100 10 Node10 things Node<Object",
            "loose 100 None",
            "decorate 101 11 Kid a,b Area2D",
            "below 101 100",
        ]
    );
    assert_eq!(
        batch.bodies,
        vec![PendingCollisionBody { node_id: id(11), mask: 1, kind: ColliderKind::Area2D }]
    );
    assert_eq!(index.get(id(11)), Some(entity(101)));
}

#[test]
fn parent_that_is_not_mirrored_is_named() {
    let mut index = NodeEntityIndex::default();
    let mut m = observed(11, SceneTreeMessageType::NodeAdded);
    m.node.parent = Some(id(55));
    let batch = create_scene_tree_entity(
        &mut index,
        &EntityTable::new(),
        &context(),
        &vec![m],
        &vec![entity(100)],
    );
    assert_eq!(describe(&batch.commands)[1], "loose 100 Some(55)");
}

#[test]
fn without_a_watcher_there_are_no_bodies() {
    let mut index = NodeEntityIndex::default();
    let mut m = observed(11, SceneTreeMessageType::NodeAdded);
    m.message.collision_mask = Some(15);
    let batch = create_scene_tree_entity(
        &mut index,
        &EntityTable::new(),
        &MirrorContext { collision_watcher: false, ..context() },
        &vec![m],
        &vec![entity(100)],
    );
    assert!(batch.bodies.is_empty());
}

#[test]
fn a_node_freed_meanwhile_is_passed_over() {
    let mut index = NodeEntityIndex::default();
    let mut m = observed(11, SceneTreeMessageType::NodeAdded);
    m.node.valid = false;
    let messages = vec![m];
    assert_eq!(spawn_demand(&index, &messages), 0);
    let batch = create_scene_tree_entity(
        &mut index,
        &EntityTable::new(),
        &context(),
        &messages,
        &vec![],
    );
    assert!(batch.commands.is_empty());
    assert!(index.is_empty());
}

#[test]
fn decorated_entity_is_only_refreshed() {
    let mut index = NodeEntityIndex::default();
    index.insert(id(11), entity(7));
    let mut table = EntityTable::new();
    table.insert(entity(7), EntityFacts { protected: false, decorated: true });
    let mut m = observed(11, SceneTreeMessageType::NodeAdded);
    m.message.collision_mask = Some(1);
    let batch = create_scene_tree_entity(&mut index, &table, &context(), &vec![m], &vec![]);
    assert_eq!(describe(&batch.commands), vec!["refresh 7 11 Node11", "loose 7 None"]);
    assert!(batch.bodies.is_empty());
}

#[test]
fn entity_without_decoration_is_reused() {
    // A packed scene gave the entity its handle before the tree announced the node.
    let mut index = NodeEntityIndex::default();
    index.insert(id(11), entity(7));
    let mut table = EntityTable::new();
    table.insert(entity(7), EntityFacts { protected: false, decorated: false });
    let messages = vec![observed(11, SceneTreeMessageType::NodeAdded)];
    assert_eq!(spawn_demand(&index, &messages), 0);
    let batch = create_scene_tree_entity(&mut index, &table, &context(), &messages, &vec![]);
    assert_eq!(describe(&batch.commands)[0], "decorate 7 11 Node11 things Node<Object");
}

fn removal(parent: Option<InstanceId>, excluded: bool, protected: bool) -> (Vec<String>, bool) {
    let mut index = NodeEntityIndex::default();
    index.insert(id(11), entity(7));
    let mut table = EntityTable::new();
    table.insert(entity(7), EntityFacts { protected, decorated: true });
    let mut m = observed(11, SceneTreeMessageType::NodeRemoved);
    m.node.parent = parent;
    m.node.excluded = excluded;
    let batch = create_scene_tree_entity(&mut index, &table, &context(), &vec![m], &vec![]);
    (describe(&batch.commands), index.contains(id(11)))
}

#[test]
fn removed_nodes() {
    assert_eq!(removal(None, false, false), (vec!["despawn 7".to_string()], false));
    assert_eq!(removal(None, false, true), (vec!["strip 7".to_string()], false));
    assert_eq!(removal(Some(id(3)), false, false), (vec![], true));
    assert_eq!(removal(Some(id(3)), true, false), (vec!["despawn 7".to_string()], false));
    assert_eq!(removal(Some(id(3)), true, true), (vec!["despawn 7".to_string()], false));
}

#[test]
fn removal_of_an_unknown_node() {
    let mut index = NodeEntityIndex::default();
    let messages = vec![observed(11, SceneTreeMessageType::NodeRemoved)];
    let batch = create_scene_tree_entity(
        &mut index,
        &EntityTable::new(),
        &context(),
        &messages,
        &vec![],
    );
    assert!(batch.commands.is_empty());
}

#[test]
fn a_node_that_leaves_and_comes_back_gets_a_new_entity() {
    let mut index = NodeEntityIndex::default();
    let messages = vec![
        observed(11, SceneTreeMessageType::NodeAdded),
        observed(11, SceneTreeMessageType::NodeRemoved),
        observed(11, SceneTreeMessageType::NodeAdded),
    ];
    assert_eq!(spawn_demand(&index, &messages), 2);
    let batch = read_scene_tree_messages(
        &mut index,
        &EntityTable::new(),
        &context(),
        &messages,
        &vec![entity(1), entity(2)],
    );
    assert_eq!(index.get(id(11)), Some(entity(2)));
    assert_eq!(describe(&batch.commands)[2], "despawn 1");
}

#[test]
fn renames_take_the_short_way() {
    let mut index = NodeEntityIndex::default();
    index.insert(id(11), entity(7));
    let mut named = observed(11, SceneTreeMessageType::NodeRenamed);
    named.message.node_name = Some("Fresh".to_string());
    let messages = vec![
        named,
        observed(12, SceneTreeMessageType::NodeRenamed),
        observed(11, SceneTreeMessageType::NodeRenamed),
    ];
    let expected = vec!["rename 7 Fresh", "rename 7 Node11"];
    let short = try_process_node_renamed_messages_fast_path(&index, &messages).unwrap();
    assert_eq!(describe(&short), expected);
    let table = EntityTable::new();
    let long = create_scene_tree_entity(&mut index, &table, &context(), &messages, &vec![]);
    assert_eq!(describe(&long.commands), expected);
    let frame = read_scene_tree_messages(&mut index, &table, &context(), &messages, &vec![]);
    assert_eq!(describe(&frame.commands), expected);
}

#[test]
fn other_messages_do_not_take_the_short_way() {
    let index = NodeEntityIndex::default();
    let messages = vec![
        observed(11, SceneTreeMessageType::NodeRenamed),
        observed(11, SceneTreeMessageType::NodeRemoved),
    ];
    assert!(try_process_node_renamed_messages_fast_path(&index, &messages).is_none());
}

#[test]
fn frame_without_messages() {
    let mut index = NodeEntityIndex::default();
    let batch = read_scene_tree_messages(
        &mut index,
        &EntityTable::new(),
        &context(),
        &vec![],
        &vec![],
    );
    assert!(batch.commands.is_empty() && batch.bodies.is_empty());
}

#[test]
fn class_chain_is_walked_and_remembered() {
    let mut cache = HierarchyCache::new();
    assert!(cache.get("Area2D").is_none());
    let mut walk = ClassWalk::start("Area2D");
    let parents = ["CollisionObject2D", "Node2D", ""];
    for parent in parents {
        assert!(walk.pending().is_some());
        walk.step(parent.to_string());
    }
    assert!(walk.pending().is_none());
    let chain = cache.remember("Area2D", walk);
    assert_eq!(*chain, vec!["Area2D", "CollisionObject2D", "Node2D"]);
    assert_eq!(cache.get("Area2D"), Some(&chain));
    assert!(ClassWalk::start("").pending().is_none());
}

/// The chain of a class, and the classes whose parents were asked for.
fn ask(cache: &mut HierarchyCache, class: &str) -> (Rc<Vec<String>>, Vec<String>) {
    let mut asked = Vec::new();
    let mut step = get_inheritance_hierarchy(cache, class);
    loop {
        match step {
            ChainStep::Found(chain) => return (chain, asked),
            ChainStep::Ask(query) => {
                let class = query.asks_for().clone();
                let parent = match class.as_str() {
                    "Area2D" => "CollisionObject2D",
                    "CollisionObject2D" => "Node2D",
                    _ => "",
                };
                asked.push(class);
                step = query.answer(cache, parent.to_string());
            }
        }
    }
}

#[test]
fn class_chain_is_walked_once() {
    let mut cache = HierarchyCache::new();
    let whole = vec!["Area2D", "CollisionObject2D", "Node2D"];
    let (first, asked) = ask(&mut cache, "Area2D");
    assert_eq!(*first, whole);
    assert_eq!(asked, whole);
    // Each class has a chain of its own.
    let (other, asked) = ask(&mut cache, "CollisionObject2D");
    assert_eq!(other.as_slice(), &whole[1..]);
    assert_eq!(asked, whole[1..]);
    // Nothing is asked again, and the list is shared.
    let (second, asked) = ask(&mut cache, "Area2D");
    assert!(asked.is_empty());
    assert!(Rc::ptr_eq(&first, &second));
    let (empty, asked) = ask(&mut cache, "");
    assert!(empty.is_empty() && asked.is_empty());
    assert!(Rc::ptr_eq(&empty, &ask(&mut cache, "").0));
}

#[test]
fn marking_stops_at_the_first_known_class() {
    let chain = vec!["Coin".to_string(), "Area2D".to_string()];
    assert_eq!(next_marker_class(&chain, 0, false), Some(0));
    assert_eq!(next_marker_class(&chain, 1, false), Some(1));
    assert_eq!(next_marker_class(&chain, 2, false), None);
    assert_eq!(next_marker_class(&chain, 1, true), None);
}

#[test]
fn tree_pause_reaches_the_clock_on_edges() {
    let mut bridge = PauseBridge::default();
    assert_eq!(mirror_tree_pause_to_virtual(&mut bridge, Some(false), false), PauseAction::Keep);
    assert_eq!(mirror_tree_pause_to_virtual(&mut bridge, Some(false), true), PauseAction::Pause);
    assert_eq!(mirror_tree_pause_to_virtual(&mut bridge, Some(true), true), PauseAction::Keep);
    assert_eq!(mirror_tree_pause_to_virtual(&mut bridge, Some(true), false), PauseAction::Unpause);
    assert_eq!(bridge, PauseBridge::default());
}

#[test]
fn pause_of_the_game_survives_a_tree_pause() {
    let mut bridge = PauseBridge::default();
    assert_eq!(mirror_tree_pause_to_virtual(&mut bridge, Some(true), true), PauseAction::Keep);
    assert!(!bridge.paused_by_mirror);
    assert_eq!(mirror_tree_pause_to_virtual(&mut bridge, Some(true), false), PauseAction::Keep);
}

#[test]
fn without_a_clock_nothing_is_remembered() {
    let mut bridge = PauseBridge::default();
    assert_eq!(mirror_tree_pause_to_virtual(&mut bridge, None, true), PauseAction::Keep);
    assert_eq!(bridge, PauseBridge::default());
}

#[test]
fn messages_come_through_the_channel_in_order() {
    let (sender, reader) = register_scene_tree_watcher(false).unwrap();
    assert!(register_scene_tree_watcher(true).is_none());
    sender.send(message(1, SceneTreeMessageType::NodeAdded)).unwrap();
    sender.send(message(2, SceneTreeMessageType::NodeRemoved)).unwrap();
    let mut queue = vec![message(9, SceneTreeMessageType::NodeRenamed)];
    assert_eq!(write_scene_tree_messages(&reader, &mut queue), 2);
    assert_eq!(ids_of(&queue), vec![9, 1, 2]);
    assert_eq!(write_scene_tree_messages(&reader, &mut queue), 0);
    assert_eq!(queue.len(), 3);
}

#[test]
fn reader_of_a_given_receiver() {
    let (sender, receiver) = crossbeam_channel::unbounded();
    let reader = SceneTreeMessageReader::new(receiver);
    sender.send(message(4, SceneTreeMessageType::NodeAdded)).unwrap();
    let mut queue = Vec::new();
    assert_eq!(write_scene_tree_messages(&reader, &mut queue), 1);
    assert_eq!(ids_of(&queue), vec![4]);
}

#[test]
fn a_batch_goes_behind_what_is_queued() {
    let mut queue = vec![message(1, SceneTreeMessageType::NodeAdded)];
    let batch = vec![
        message(2, SceneTreeMessageType::NodeAdded),
        message(3, SceneTreeMessageType::NodeAdded),
    ];
    assert_eq!(write_batch(&mut queue, batch), 2);
    assert_eq!(ids_of(&queue), vec![1, 2, 3]);
}

#[test]
fn follow_ups_come_after_the_connections() {
    let mut area = body(5, 1);
    area.kind = ColliderKind::Area2D;
    let bodies = vec![area, body(6, 1)];
    let mut stage = ConnectStage::Bodies;
    let begin = ConnectEvent::Begin {
        bulk_available: false,
        readings: vec![BodyReading { valid: true, connected: false }; 2],
    };
    match connect_bodies(&mut stage, &bodies, begin) {
        ConnectAction::Connect(ConnectPlan::OneByOne { connections }) => {
            assert_eq!(connections.len(), 2);
        }
        _ => panic!("connections come first"),
    }
    assert_eq!(stage, ConnectStage::Connections);
    let reading = ColliderReading {
        valid: true,
        is_area_2d: true,
        is_area_3d: false,
        rigid_2d_monitor: Some(false),
        rigid_3d_monitor: None,
    };
    let connected = ConnectEvent::Connected { colliders: vec![reading; 2] };
    match connect_bodies(&mut stage, &bodies, connected) {
        ConnectAction::FollowUp(list) => assert_eq!(
            list,
            vec![
                BodyFollowUp { node_id: id(5), follow_up: ColliderFollowUp::SeedArea2D },
                BodyFollowUp { node_id: id(6), follow_up: ColliderFollowUp::WarnContactMonitor },
            ]
        ),
        ConnectAction::Connect(_) => panic!("the signals are connected"),
    }
    assert_eq!(stage, ConnectStage::Over);
}

#[test]
fn a_node_announced_twice_is_decorated_once() {
    let mut index = NodeEntityIndex::default();
    let mut first = observed(11, SceneTreeMessageType::NodeAdded);
    first.message.collision_mask = Some(1);
    let mut second = observed(11, SceneTreeMessageType::NodeAdded);
    second.message.collision_mask = Some(1);
    second.message.node_name = Some("Moved".to_string());
    let messages = vec![first, second];
    assert_eq!(spawn_demand(&index, &messages), 1);
    let batch = create_scene_tree_entity(
        &mut index,
        &EntityTable::new(),
        &context(),
        &messages,
        &vec![entity(100)],
    );
    assert_eq!(
        describe(&batch.commands),
        vec![
            "decorate 100 11 Node11 things Node<Object",
            "loose 100 None",
            "refresh 100 11 Moved",
            "loose 100 None",
        ]
    );
    assert_eq!(batch.bodies.len(), 1);
    assert_eq!(index.get(id(11)), Some(entity(100)));
}

#[test]
fn names_of_nodes_that_are_gone() {
    let mut index = NodeEntityIndex::default();
    index.insert(id(11), entity(7));
    let blind = || {
        let mut m = observed(11, SceneTreeMessageType::NodeRenamed);
        m.node.valid = false;
        m
    };
    assert!(!names_are_known(&index, &vec![blind()]));
    let mut told = blind();
    told.message.node_name = Some("New".to_string());
    assert!(names_are_known(&index, &vec![told]));
    // Once the entity is gone the name does not matter.
    let messages = vec![observed(11, SceneTreeMessageType::NodeRemoved), blind()];
    assert!(names_are_known(&index, &messages));
    let table = EntityTable::new();
    let batch = create_scene_tree_entity(&mut index, &table, &context(), &messages, &vec![]);
    assert_eq!(describe(&batch.commands), vec!["despawn 7"]);
}

#[test]
fn announced_nodes_are_indexed() {
    let mut index = NodeEntityIndex::default();
    let mut gone = observed(12, SceneTreeMessageType::NodeAdded);
    gone.node.valid = false;
    let messages = vec![
        observed(11, SceneTreeMessageType::NodeAdded),
        gone,
        observed(13, SceneTreeMessageType::NodeAdded),
    ];
    create_scene_tree_entity(
        &mut index,
        &EntityTable::new(),
        &context(),
        &messages,
        &vec![entity(1), entity(2)],
    );
    assert!(index.contains(id(11)));
    assert!(!index.contains(id(12)));
    assert!(index.contains(id(13)));
}
