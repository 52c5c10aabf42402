use godot_bevy::ids::{GodotNodeHandle, InstanceId};
use godot_bevy::packed_scene::{
    spawn_scene, GodotPackedScenePlugin, GodotScene, GodotSceneResource, InstanceReading,
    SceneCache, SceneSource, SpawnStep,
};

type Scene = GodotScene<u32, char>;

fn handle(n: i64) -> GodotNodeHandle {
    GodotNodeHandle::from_instance_id(InstanceId::from_i64(n))
}

fn reading() -> InstanceReading {
    InstanceReading {
        is_node_3d: false,
        is_node_2d: false,
        has_transform: false,
        has_signal_sender: true,
    }
}

fn describe(steps: &[SpawnStep<char>]) -> Vec<String> {
    let mut r = Vec::new();
    for step in steps {
        r.push(match step {
            SpawnStep::SetTransform3D => "3d".to_string(),
            SpawnStep::SetTransform2D => "2d".to_string(),
            SpawnStep::ReportTransform => "no place".to_string(),
            SpawnStep::ConnectSignals(list) => {
                let names: Vec<String> = list
                    .iter()
                    .map(|c| format!("{}:{}:{}", c.node_path, c.signal_name, c.connections))
                    .collect();
                format!("connect {}", names.join(" "))
            }
            SpawnStep::ReportSignals => "no sender".to_string(),
            SpawnStep::AddToParent(parent) => format!("below {}", parent.id.to_i64()),
            SpawnStep::AddToRoot => "below root".to_string(),
            SpawnStep::InsertHandle => "handle".to_string(),
        });
    }
    r
}

#[test]
fn packed_scene_plugin_default() {
    assert_eq!(GodotPackedScenePlugin::default(), GodotPackedScenePlugin);
}

#[test]
fn scene_builders() {
    let scene: Scene = GodotScene::from_handle(5);
    assert!(matches!(scene.resource, GodotSceneResource::Handle(5)));
    assert_eq!(scene.parent, None);
    assert!(scene.deferred_signal_connections.is_empty());

    let scene: Scene = GodotScene::from_path("res://a.tscn")
        .with_parent(handle(3))
        .with_signal_connection("VBox/MyButton", "pressed", 'x')
        .with_signal_connection(".", "ready", 'y');
    assert!(matches!(&scene.resource, GodotSceneResource::Path(p) if p == "res://a.tscn"));
    assert_eq!(scene.parent, Some(handle(3)));
    assert_eq!(scene.deferred_signal_connections.len(), 2);
    assert_eq!(scene.deferred_signal_connections[0].node_path, "VBox/MyButton");
    assert_eq!(scene.deferred_signal_connections[0].signal_name, "pressed");
    assert_eq!(scene.deferred_signal_connections[0].connections, 'x');
    assert_eq!(scene.deferred_signal_connections[1].signal_name, "ready");
}

#[test]
fn a_path_is_loaded_once_per_frame() {
    let mut cache: SceneCache<u64> = SceneCache::new();
    let scene: Scene = GodotScene::from_path("res://a.tscn");
    let mut loads = 0;
    for _ in 0..3 {
        let loaded = match cache.source(&scene) {
            SceneSource::Load(path) => {
                assert_eq!(path, "res://a.tscn");
                loads += 1;
                true
            }
            SceneSource::Cached(packed) => {
                assert_eq!(*packed, 77);
                false
            }
            SceneSource::Asset(_) => panic!("a path is no asset"),
        };
        if loaded {
            cache.note_loaded("res://a.tscn", Some(77));
        }
    }
    assert_eq!(loads, 1);
    let other: Scene = GodotScene::from_path("res://b.tscn");
    assert!(matches!(cache.source(&other), SceneSource::Load("res://b.tscn")));
}

#[test]
fn what_is_no_scene_is_not_kept() {
    let mut cache: SceneCache<u64> = SceneCache::new();
    let scene: Scene = GodotScene::from_path("res://a.png");
    cache.note_loaded("res://a.png", None);
    assert!(matches!(cache.source(&scene), SceneSource::Load("res://a.png")));
}

#[test]
fn an_asset_does_not_go_through_the_cache() {
    let cache: SceneCache<u64> = SceneCache::new();
    let scene: Scene = GodotScene::from_handle(9);
    assert!(matches!(cache.source(&scene), SceneSource::Asset(9)));
}

#[test]
fn spawning_without_extras() {
    let mut scene: Scene = GodotScene::from_path("res://a.tscn");
    let steps = spawn_scene(&mut scene, Some(reading()));
    assert_eq!(describe(&steps), vec!["below root", "handle"]);
}

#[test]
fn spawning_in_space_with_signals_below_a_parent() {
    let mut scene: Scene = GodotScene::from_path("res://a.tscn")
        .with_parent(handle(12))
        .with_signal_connection("A", "pressed", 'x')
        .with_signal_connection("B", "released", 'y');
    let steps = spawn_scene(
        &mut scene,
        Some(InstanceReading {
            is_node_3d: true,
            is_node_2d: true,
            has_transform: true,
            ..reading()
        }),
    );
    assert_eq!(
        describe(&steps),
        vec!["3d", "connect A:pressed:x B:released:y", "below 12", "handle"]
    );
    assert!(scene.deferred_signal_connections.is_empty());
    assert_eq!(scene.parent, Some(handle(12)));
}

#[test]
fn spawning_in_the_plane_without_a_sender() {
    let mut scene: Scene =
        GodotScene::from_path("res://a.tscn").with_signal_connection("A", "pressed", 'x');
    let steps = spawn_scene(
        &mut scene,
        Some(InstanceReading {
            is_node_3d: false,
            is_node_2d: true,
            has_transform: true,
            has_signal_sender: false,
        }),
    );
    assert_eq!(describe(&steps), vec!["2d", "no sender", "below root", "handle"]);
    assert!(scene.deferred_signal_connections.is_empty());
}

#[test]
fn spawning_a_plain_node_with_a_transform() {
    let mut scene: Scene = GodotScene::from_path("res://a.tscn");
    let steps = spawn_scene(&mut scene, Some(InstanceReading { has_transform: true, ..reading() }));
    assert_eq!(describe(&steps), vec!["no place", "below root", "handle"]);
}

#[test]
fn nothing_is_spawned_without_an_instance() {
    let mut scene: Scene = GodotScene::from_path("res://a.tscn")
        .with_parent(handle(12))
        .with_signal_connection("A", "pressed", 'x');
    let steps = spawn_scene(&mut scene, None);
    assert!(steps.is_empty());
    assert_eq!(scene.deferred_signal_connections.len(), 1);
    assert_eq!(scene.parent, Some(handle(12)));
}
