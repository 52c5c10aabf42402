use godot_bevy::app::bevy_app::{
    log_plugin_diagnostics, plugins_step, BevyApp, PluginsAdded, PluginsPhase, PluginsStep,
    Preamble, SendRefusal,
};
use godot_bevy::app::construction::{BuildStep, Builder};
use godot_bevy::app::events::{
    event_delivery, gd_send_event, warning_key, EventDelivery, EventLookup, UNKNOWN_EVENT_KEY,
};
use godot_bevy::app::registry::{init, init_with_config, AppRegistry, BevyAppConfig};
use godot_bevy::app::watchers::{
    script_node_step, watchers_to_register, watchers_to_remove, MessagesInUse, ScriptNode,
    ScriptNodeStep, Watcher, WatchersInTree,
};
use godot_bevy::scene_tree::plugin::GodotSceneTreePlugin;

const NOTHING: WatchersInTree = WatchersInTree {
    scene_tree: false,
    optimized_scene_tree: false,
    collision: false,
    input_event: false,
};

const EVERYTHING: WatchersInTree = WatchersInTree {
    scene_tree: true,
    optimized_scene_tree: true,
    collision: true,
    input_event: true,
};

type Node = BevyApp<&'static str, u8>;

#[test]
fn config_defaults_to_despawning_children() {
    assert!(BevyAppConfig::default().scene_tree_auto_despawn_children);
    let registry: AppRegistry<u8> = AppRegistry::new();
    assert!(!registry.has_init_func());
    assert!(registry.scene_tree_plugin().auto_despawn_children);
}

#[test]
fn first_registration_wins() {
    let mut registry: AppRegistry<u8> = AppRegistry::new();
    init_with_config(
        &mut registry,
        BevyAppConfig { scene_tree_auto_despawn_children: false },
        1,
    );
    init(&mut registry, 2);
    assert_eq!(registry.init_func, Some(1));
    assert!(registry.has_init_func());
    assert!(!registry.scene_tree_plugin().auto_despawn_children);
}

#[test]
fn plain_registration_has_the_default_config() {
    let mut registry: AppRegistry<u8> = AppRegistry::new();
    init(&mut registry, 5);
    assert_eq!(registry.config, Some(BevyAppConfig::default()));
    assert_eq!(registry.init_func, Some(5));
}

#[test]
fn own_builder_goes_before_the_registered_one() {
    let mut registry: AppRegistry<u8> = AppRegistry::new();
    let mut node: Node = BevyApp::new();
    assert_eq!(node.init_func(&registry), None);
    init(&mut registry, 1);
    assert_eq!(node.init_func(&registry), Some(&1));
    node.set_instance_init_func(9);
    assert_eq!(node.init_func(&registry), Some(&9));
}

#[test]
fn initialize_without_a_builder_does_nothing() {
    let registry: AppRegistry<u8> = AppRegistry::new();
    let mut node: Node = BevyApp::new();
    node.finish_initialize("app", 0);
    node.end_process(false);
    assert!(node.initialize(&registry, EVERYTHING, true).is_none());
    assert_eq!(node.get_app(), Some(&"app"));
    assert!(node.started);
}

#[test]
fn initialize_starts_over() {
    let mut registry: AppRegistry<u8> = AppRegistry::new();
    init(&mut registry, 1);
    let mut node: Node = BevyApp::new();
    node.finish_initialize("old", 0);
    node.begin_physics_process(false);
    node.end_physics_process(false);
    let restart = node.initialize(&registry, EVERYTHING, true).unwrap();
    assert_eq!(
        restart.removed,
        vec![
            Watcher::SceneTree,
            Watcher::OptimizedSceneTree,
            Watcher::Collision,
            Watcher::InputEvent,
        ]
    );
    assert_eq!(restart.steps, node.do_initialize(&registry, true));
    assert_eq!(node.get_app(), None);
    assert!(!node.started);
    assert!(!node.prefix_done_this_frame);
    assert_eq!(node.physics_steps_this_frame, 1);
}

#[test]
fn application_is_built_step_by_step() {
    let mut registry: AppRegistry<u8> = AppRegistry::new();
    let mut node: Node = BevyApp::new();
    node.end_process(false);
    let plugin = |auto_despawn_children: bool| {
        BuildStep::AddSceneTreePlugin(GodotSceneTreePlugin { auto_despawn_children })
    };
    assert_eq!(
        node.do_initialize(&registry, false),
        vec![
            BuildStep::ProcessAlways,
            BuildStep::AddCorePlugins,
            plugin(true),
            BuildStep::RegisterWatchers,
            BuildStep::SettlePlugins,
            BuildStep::TakeOver,
        ]
    );
    assert!(!node.started);
    let config = BevyAppConfig { scene_tree_auto_despawn_children: false };
    init_with_config(&mut registry, config, 1);
    let steps = node.do_initialize(&registry, true);
    assert_eq!(
        steps,
        vec![
            BuildStep::ProcessAlways,
            BuildStep::AddCorePlugins,
            plugin(false),
            BuildStep::RunBuilder(Builder::Registered),
            BuildStep::LogPlugins,
            BuildStep::RegisterWatchers,
            BuildStep::SettlePlugins,
            BuildStep::TakeOver,
        ]
    );
    node.set_instance_init_func(9);
    let steps = node.do_initialize(&registry, false);
    assert_eq!(steps[3], BuildStep::RunBuilder(Builder::Own));
    assert_eq!(steps[4], BuildStep::RegisterWatchers);
    assert_eq!(steps.len(), 7);
}

#[test]
fn application_can_be_changed_in_place() {
    let mut node: Node = BevyApp::new();
    assert!(node.get_app_mut().is_none());
    node.finish_initialize("before", 0);
    if let Some(app) = node.get_app_mut() {
        *app = "after";
    }
    assert_eq!(node.get_app(), Some(&"after"));
}

#[test]
fn teardown_removes_what_is_there() {
    let mut node: Node = BevyApp::new();
    node.finish_initialize("app", 0);
    let removed = node.teardown(WatchersInTree { scene_tree: true, input_event: true, ..NOTHING });
    assert_eq!(removed, vec![Watcher::SceneTree, Watcher::InputEvent]);
    assert_eq!(node.get_app(), None);
    assert_eq!(watchers_to_remove(NOTHING), vec![]);
    let names: Vec<&str> = watchers_to_remove(EVERYTHING).iter().map(|w| w.name()).collect();
    assert_eq!(
        names,
        vec![
            "SceneTreeWatcher",
            "OptimizedSceneTreeWatcher",
            "CollisionWatcher",
            "InputEventWatcher",
        ]
    );
}

#[test]
fn watchers_follow_the_messages_in_use() {
    let all = MessagesInUse { scene_tree: true, collisions: true, keyboard: true };
    let none = MessagesInUse { scene_tree: false, collisions: false, keyboard: false };
    assert_eq!(watchers_to_register(none, NOTHING), vec![]);
    assert_eq!(
        watchers_to_register(all, NOTHING),
        vec![
            Watcher::SceneTree,
            Watcher::OptimizedSceneTree,
            Watcher::Collision,
            Watcher::InputEvent,
        ]
    );
    // Only the input watcher is set up where there is one already.
    assert_eq!(watchers_to_register(all, EVERYTHING), vec![Watcher::InputEvent]);
}

#[test]
fn script_nodes() {
    assert_eq!(script_node_step(true, true), ScriptNodeStep::Keep);
    assert_eq!(script_node_step(true, false), ScriptNodeStep::Keep);
    assert_eq!(script_node_step(false, true), ScriptNodeStep::Load);
    assert_eq!(script_node_step(false, false), ScriptNodeStep::Unavailable);
    assert_eq!(ScriptNode::OptimizedBulkOperations.name(), "OptimizedBulkOperations");
    assert_eq!(
        ScriptNode::OptimizedSceneTreeWatcher.path(),
        "res://addons/godot-bevy/optimized_scene_tree_watcher.gd"
    );
    assert_eq!(
        ScriptNode::OptimizedBulkOperations.path(),
        "res://addons/godot-bevy/optimized_bulk_operations.gd"
    );
}

#[test]
fn ready_does_nothing_in_the_editor() {
    let mut registry: AppRegistry<u8> = AppRegistry::new();
    init(&mut registry, 1);
    let node: Node = BevyApp::new();
    let plan = node.ready(&registry, true, true);
    assert!(!plan.register_bulk_operations && !plan.initialize);
    let plan = node.ready(&registry, false, true);
    assert!(plan.register_bulk_operations && plan.initialize);
    let plan = node.ready(&AppRegistry::new(), false, true);
    assert!(plan.register_bulk_operations && !plan.initialize);
    let plan = node.ready(&registry, false, false);
    assert!(!plan.register_bulk_operations && plan.initialize);
}

#[test]
fn frame_with_two_physics_steps() {
    let mut node: Node = BevyApp::new();
    node.finish_initialize("app", 0);
    let mut run = Vec::new();
    for _ in 0..2 {
        run.push(node.begin_physics_process(false).unwrap());
        node.end_physics_process(false);
    }
    run.push(node.begin_process(false).unwrap());
    let end = node.end_process(false);
    assert_eq!(
        run,
        vec![
            Preamble { need_startup: true, need_prefix: true },
            Preamble { need_startup: false, need_prefix: false },
            Preamble { need_startup: false, need_prefix: false },
        ]
    );
    assert_eq!(end.physics_steps, 2);
    assert_eq!(node.physics_steps_this_frame, 0);
    // The next frame runs its first part anew, and no startup.
    assert_eq!(
        node.begin_process(false),
        Some(Preamble { need_startup: false, need_prefix: true })
    );
}

#[test]
fn frame_without_a_physics_step_falls_back() {
    let mut node: Node = BevyApp::new();
    node.finish_initialize("app", 0);
    assert_eq!(node.begin_process(false), Some(Preamble { need_startup: true, need_prefix: true }));
    assert_eq!(node.end_process(false).physics_steps, 0);
    assert!(node.started);
}

#[test]
fn callbacks_do_nothing_in_the_editor() {
    let mut node: Node = BevyApp::new();
    assert_eq!(node.begin_process(true), None);
    assert_eq!(node.begin_physics_process(true), None);
    assert_eq!(node.physics_steps_this_frame, 0);
    node.physics_steps_this_frame = u32::MAX;
    assert_eq!(node.begin_physics_process(true), None);
    assert_eq!(node.physics_steps_this_frame, u32::MAX);
}

#[test]
fn panic_in_process_ends_the_application() {
    let mut node: Node = BevyApp::new();
    node.finish_initialize("app", 0);
    node.begin_physics_process(false);
    node.end_physics_process(false);
    let end = node.end_process(true);
    assert_eq!(end.physics_steps, 1);
    assert_eq!(node.get_app(), None);
    assert!(node.started);
    assert!(!node.prefix_done_this_frame);
}

#[test]
fn panic_in_a_physics_step_ends_the_application() {
    let mut node: Node = BevyApp::new();
    node.finish_initialize("app", 0);
    node.begin_physics_process(false);
    node.end_physics_process(true);
    assert_eq!(node.get_app(), None);
    assert!(!node.started);
    assert!(!node.prefix_done_this_frame);
    // The frame still ends, and reports the step.
    assert_eq!(node.end_process(false).physics_steps, 1);
}

#[test]
fn plugins_are_brought_to_their_end() {
    assert_eq!(plugins_step(false, PluginsPhase::Cleaned), PluginsStep::Nothing);
    assert_eq!(plugins_step(false, PluginsPhase::Adding), PluginsStep::Tick);
    assert_eq!(plugins_step(true, PluginsPhase::Adding), PluginsStep::Tick);
    assert_eq!(plugins_step(true, PluginsPhase::Ready), PluginsStep::FinishAndCleanup);
    assert_eq!(plugins_step(false, PluginsPhase::Finished), PluginsStep::FinishAndCleanup);
    assert_eq!(plugins_step(true, PluginsPhase::Cleaned), PluginsStep::FinishAndCleanup);
}

#[test]
fn diagnostics_line() {
    let line = log_plugin_diagnostics(PluginsAdded {
        transform_sync: false,
        assets: true,
        collisions: true,
        input: false,
        audio: true,
        packed_scene: true,
        debugger: false,
    });
    assert_eq!(
        line,
        "[godot-bevy] plugins -- transform_sync:off assets:on collisions:on input:off audio:on packed_scene:on debugger:off. Missing one you expected? Add it, or use GodotDefaultPlugins."
    );
}

#[test]
fn typed_events() {
    let mut node: Node = BevyApp::new();
    assert_eq!(node.send_event(true), Err(SendRefusal::NoApp));
    node.finish_initialize("app", 0);
    assert_eq!(node.send_event(false), Err(SendRefusal::NoChannel));
    assert_eq!(node.send_event(true), Ok(()));
}

#[test]
fn events_by_name() {
    let names = vec!["jump".to_string(), "score".to_string()];
    assert_eq!(gd_send_event(false, Some(&names), "jump"), EventLookup::NoApp);
    assert_eq!(gd_send_event(true, None, "jump"), EventLookup::NothingRegistered);
    assert_eq!(gd_send_event(true, Some(&names), "fly"), EventLookup::Unknown);
    assert_eq!(gd_send_event(true, Some(&names), "score"), EventLookup::CallMapper);
    assert_eq!(event_delivery(false, true), EventDelivery::Rejected);
    assert_eq!(event_delivery(true, false), EventDelivery::NoChannel);
    assert_eq!(event_delivery(true, true), EventDelivery::Send);
}

#[test]
fn unknown_events_share_one_key() {
    assert_eq!(UNKNOWN_EVENT_KEY, "<unknown event>");
    assert_eq!(warning_key(EventLookup::Unknown, true, "fly"), Some("<unknown event>"));
    assert_eq!(warning_key(EventLookup::Unknown, false, "swim"), Some("<unknown event>"));
    assert_eq!(warning_key(EventLookup::CallMapper, false, "jump"), Some("jump"));
    assert_eq!(warning_key(EventLookup::CallMapper, true, "jump"), None);
    assert_eq!(warning_key(EventLookup::NoApp, false, "jump"), None);
    assert_eq!(warning_key(EventLookup::NothingRegistered, false, "jump"), None);
}
