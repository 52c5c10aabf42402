//! How the scene tree is connected to the watcher.

use vstd::prelude::*;

use crate::scene_tree::message::SceneTreeMessageType;

verus! {

/// The signal of the tree that a kind of message comes from.
pub open spec fn tree_signal(message_type: SceneTreeMessageType) -> Seq<char> {
    match message_type {
        SceneTreeMessageType::NodeAdded => "node_added"@,
        SceneTreeMessageType::NodeRemoved => "node_removed"@,
        SceneTreeMessageType::NodeRenamed => "node_renamed"@,
    }
}

/// The signal of the tree that a kind of message comes from.
pub fn signal_name(message_type: SceneTreeMessageType) -> (r: &'static str)
    ensures
        r@ == tree_signal(message_type),
{
    match message_type {
        SceneTreeMessageType::NodeAdded => "node_added",
        SceneTreeMessageType::NodeRemoved => "node_removed",
        SceneTreeMessageType::NodeRenamed => "node_renamed",
    }
}

/// The kinds of messages whose signals are connected to the watcher: none, if the optimized watcher
/// is there, which connects itself and hands its messages on; else all, in this order.
pub open spec fn connected(has_optimized_watcher: bool) -> Seq<SceneTreeMessageType> {
    if has_optimized_watcher {
        seq![]
    } else {
        seq![
            SceneTreeMessageType::NodeAdded,
            SceneTreeMessageType::NodeRemoved,
            SceneTreeMessageType::NodeRenamed,
        ]
    }
}

/// The kinds of messages whose signals are to be connected to the watcher. The watcher itself has to be
/// there in any case: the optimized one hands its messages on to it.
pub fn connect_scene_tree(has_watcher: bool, has_optimized_watcher: bool) -> (r: Vec<
    SceneTreeMessageType,
>)
    requires
        has_watcher,
    ensures
        r@ == connected(has_optimized_watcher),
{
    let mut r: Vec<SceneTreeMessageType> = Vec::new();
    if !has_optimized_watcher {
        r.push(SceneTreeMessageType::NodeAdded);
        r.push(SceneTreeMessageType::NodeRemoved);
        r.push(SceneTreeMessageType::NodeRenamed);
    }
    assert(r@ =~= connected(has_optimized_watcher));
    r
}

/// Every kind of message reaches the watcher by exactly one way: through its signal, connected once
/// and to no other kind's, or through the optimized watcher.
pub proof fn law_every_message_kind_is_connected_once(
    has_optimized_watcher: bool,
    message_type: SceneTreeMessageType,
    other: SceneTreeMessageType,
)
    ensures
        connected(has_optimized_watcher).contains(message_type) <==> !has_optimized_watcher,
        connected(has_optimized_watcher).no_duplicates(),
        message_type != other ==> tree_signal(message_type) != tree_signal(other),
{
    reveal_strlit("node_added");
    reveal_strlit("node_removed");
    reveal_strlit("node_renamed");
    let c = connected(has_optimized_watcher);
    if !has_optimized_watcher {
        assert(c[0] == SceneTreeMessageType::NodeAdded);
        assert(c[1] == SceneTreeMessageType::NodeRemoved);
        assert(c[2] == SceneTreeMessageType::NodeRenamed);
    }
    assert("node_added"@.len() != "node_removed"@.len());
    assert("node_removed"@[7] != "node_renamed"@[7]);
    assert("node_added"@.len() != "node_renamed"@.len());
}

/// Each kind of message comes from the signal of the tree that tells of it, and without the optimized
/// watcher all three are connected, first that of nodes that come, then that of nodes that go, then
/// that of new names.
pub proof fn law_signals_tell_what_happened()
    ensures
        tree_signal(SceneTreeMessageType::NodeAdded) == "node_added"@,
        tree_signal(SceneTreeMessageType::NodeRemoved) == "node_removed"@,
        tree_signal(SceneTreeMessageType::NodeRenamed) == "node_renamed"@,
        connected(true).len() == 0,
        connected(false).len() == 3,
        connected(false)[0] == SceneTreeMessageType::NodeAdded,
        connected(false)[1] == SceneTreeMessageType::NodeRemoved,
        connected(false)[2] == SceneTreeMessageType::NodeRenamed,
{
}

} // verus!
