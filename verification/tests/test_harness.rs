use godot_bevy::ids::{Entity, InstanceId};
use godot_bevy::node_index::NodeEntityIndex;
use godot_bevy::test_app::{
    missing_message, waiting_message, EntityWait, NodeOrigin, TestApp, WaitStep, ENTITY_FRAMES,
    SETTLING_FRAMES,
};

#[test]
fn frames_of_the_harness() {
    assert_eq!(SETTLING_FRAMES, 2);
    assert_eq!(ENTITY_FRAMES, 3);
}

#[test]
fn harness_looks_entities_up() {
    let app: TestApp<&str, u8> = TestApp::new("context", 1);
    let mut index = NodeEntityIndex::default();
    let id = InstanceId::from_i64(4);
    assert_eq!(*app.ctx(), "context");
    assert_eq!(app.entity_for_node(&index, id), None);
    assert!(!app.has_entity_for_node(&index, id));
    index.insert(id, Entity::from_bits(8));
    assert_eq!(app.entity_for_node(&index, id), Some(Entity::from_bits(8)));
    assert!(app.has_entity_for_node(&index, id));
}

#[test]
fn cleanup_gives_the_application_up_once() {
    let mut app: TestApp<(), u8> = TestApp::new((), 7);
    assert_eq!(app.cleanup(), Some(7));
    assert_eq!(app.cleanup(), None);
}

#[test]
fn entity_found_at_once() {
    let mut wait = EntityWait::new();
    let entity = Entity::from_bits(3);
    assert_eq!(wait.look(Some(entity)), WaitStep::Found(entity));
    assert_eq!(wait.waited, 0);
}

#[test]
fn entity_found_at_the_last_look() {
    let mut wait = EntityWait::new();
    let entity = Entity::from_bits(3);
    assert_eq!(wait.look(None), WaitStep::Again(1));
    assert_eq!(wait.look(None), WaitStep::Again(2));
    assert_eq!(wait.look(Some(entity)), WaitStep::Found(entity));
}

#[test]
fn entity_never_found() {
    let mut wait = EntityWait::new();
    assert_eq!(wait.look(None), WaitStep::Again(1));
    assert_eq!(wait.look(None), WaitStep::Again(2));
    assert_eq!(wait.look(None), WaitStep::GiveUp);
}

#[test]
fn messages_of_the_wait() {
    assert_eq!(
        waiting_message(NodeOrigin::Added, "Player", 1),
        "Entity not yet created for node 'Player' after 1 frame(s), waiting another frame"
    );
    assert_eq!(
        waiting_message(NodeOrigin::Prebuilt, "Area", 2),
        "Entity not yet created for prebuilt node 'Area' after 2 frame(s), waiting another frame"
    );
    assert_eq!(
        missing_message(NodeOrigin::Added, "Player"),
        "Entity should exist for node 'Player' after 3 frames"
    );
    assert_eq!(
        missing_message(NodeOrigin::Prebuilt, "Area"),
        "Entity should exist for prebuilt node 'Area' after 3 frames"
    );
}
