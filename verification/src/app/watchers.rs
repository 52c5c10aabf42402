//! The helper nodes below the application node.

use vstd::prelude::*;

verus! {

/// A helper node that the application node looks after.
#[derive(Clone, Copy, Debug, PartialEq, Eq, Structural)]
pub enum Watcher {
    SceneTree,
    OptimizedSceneTree,
    Collision,
    InputEvent,
}

impl Watcher {
    /// The name of the node.
    pub open spec fn spec_name(self) -> Seq<char> {
        match self {
            Watcher::SceneTree => "SceneTreeWatcher"@,
            Watcher::OptimizedSceneTree => "OptimizedSceneTreeWatcher"@,
            Watcher::Collision => "CollisionWatcher"@,
            Watcher::InputEvent => "InputEventWatcher"@,
        }
    }

    /// The name of the node.
    pub fn name(&self) -> (r: &'static str)
        ensures
            r@ == self.spec_name(),
    {
        match self {
            Watcher::SceneTree => "SceneTreeWatcher",
            Watcher::OptimizedSceneTree => "OptimizedSceneTreeWatcher",
            Watcher::Collision => "CollisionWatcher",
            Watcher::InputEvent => "InputEventWatcher",
        }
    }
}

/// Which helper nodes are below the application node.
#[derive(Clone, Copy, Debug, PartialEq, Eq, Structural)]
pub struct WatchersInTree {
    pub scene_tree: bool,
    pub optimized_scene_tree: bool,
    pub collision: bool,
    pub input_event: bool,
}

impl WatchersInTree {
    /// Whether that helper node is there.
    pub open spec fn has(self, watcher: Watcher) -> bool {
        match watcher {
            Watcher::SceneTree => self.scene_tree,
            Watcher::OptimizedSceneTree => self.optimized_scene_tree,
            Watcher::Collision => self.collision,
            Watcher::InputEvent => self.input_event,
        }
    }
}

/// The helper nodes that are chosen, in the order in which they are set up and taken down.
pub open spec fn chosen(
    scene_tree: bool,
    optimized_scene_tree: bool,
    collision: bool,
    input_event: bool,
) -> Seq<Watcher> {
    let first: Seq<Watcher> = if scene_tree {
        seq![Watcher::SceneTree]
    } else {
        seq![]
    };
    let second: Seq<Watcher> = if optimized_scene_tree {
        seq![Watcher::OptimizedSceneTree]
    } else {
        seq![]
    };
    let third: Seq<Watcher> = if collision {
        seq![Watcher::Collision]
    } else {
        seq![]
    };
    let fourth: Seq<Watcher> = if input_event {
        seq![Watcher::InputEvent]
    } else {
        seq![]
    };
    first + second + third + fourth
}

fn list_chosen(
    scene_tree: bool,
    optimized_scene_tree: bool,
    collision: bool,
    input_event: bool,
) -> (r: Vec<Watcher>)
    ensures
        r@ == chosen(scene_tree, optimized_scene_tree, collision, input_event),
{
    let mut r: Vec<Watcher> = Vec::new();
    if scene_tree {
        r.push(Watcher::SceneTree);
    }
    if optimized_scene_tree {
        r.push(Watcher::OptimizedSceneTree);
    }
    if collision {
        r.push(Watcher::Collision);
    }
    if input_event {
        r.push(Watcher::InputEvent);
    }
    assert(r@ =~= chosen(scene_tree, optimized_scene_tree, collision, input_event));
    r
}

/// The helper nodes that are there, in the order in which they are taken down.
pub open spec fn present(in_tree: WatchersInTree) -> Seq<Watcher> {
    chosen(in_tree.scene_tree, in_tree.optimized_scene_tree, in_tree.collision, in_tree.input_event)
}

/// The helper nodes that are there, in the order in which they are taken down.
pub fn watchers_to_remove(in_tree: WatchersInTree) -> (r: Vec<Watcher>)
    ensures
        r@ == present(in_tree),
{
    list_chosen(
        in_tree.scene_tree,
        in_tree.optimized_scene_tree,
        in_tree.collision,
        in_tree.input_event,
    )
}

/// Which kinds of messages the application has been set up to carry.
#[derive(Clone, Copy, Debug, PartialEq, Eq, Structural)]
pub struct MessagesInUse {
    pub scene_tree: bool,
    pub collisions: bool,
    pub keyboard: bool,
}

/// The helper nodes that are wanting: each whose messages are in use and that is not there. The
/// input watcher is set up anew whether or not one is there.
pub open spec fn wanting(messages: MessagesInUse, in_tree: WatchersInTree) -> Seq<Watcher> {
    chosen(
        messages.scene_tree && !in_tree.scene_tree,
        messages.scene_tree && !in_tree.optimized_scene_tree,
        messages.collisions && !in_tree.collision,
        messages.keyboard,
    )
}

/// The helper nodes to set up, in order.
pub fn watchers_to_register(messages: MessagesInUse, in_tree: WatchersInTree) -> (r: Vec<Watcher>)
    ensures
        r@ == wanting(messages, in_tree),
{
    list_chosen(
        messages.scene_tree && !in_tree.scene_tree,
        messages.scene_tree && !in_tree.optimized_scene_tree,
        messages.collisions && !in_tree.collision,
        messages.keyboard,
    )
}

/// What is listed is what was chosen, each once.
proof fn lemma_chosen(
    scene_tree: bool,
    optimized_scene_tree: bool,
    collision: bool,
    input_event: bool,
    watcher: Watcher,
)
    ensures
        chosen(scene_tree, optimized_scene_tree, collision, input_event).contains(watcher) <==> (
        WatchersInTree {
            scene_tree,
            optimized_scene_tree,
            collision,
            input_event,
        }).has(watcher),
        chosen(scene_tree, optimized_scene_tree, collision, input_event).no_duplicates(),
{
    let s = chosen(scene_tree, optimized_scene_tree, collision, input_event);
    let a: int = if scene_tree {
        1
    } else {
        0
    };
    let b: int = if optimized_scene_tree {
        1
    } else {
        0
    };
    let c: int = if collision {
        1
    } else {
        0
    };
    if scene_tree {
        assert(s[0] == Watcher::SceneTree);
    }
    if optimized_scene_tree {
        assert(s[a] == Watcher::OptimizedSceneTree);
    }
    if collision {
        assert(s[a + b] == Watcher::Collision);
    }
    if input_event {
        assert(s[a + b + c] == Watcher::InputEvent);
    }
}

/// Taking down removes every helper node that is there, each once, and nothing else.
pub proof fn law_teardown_is_complete(in_tree: WatchersInTree, watcher: Watcher)
    ensures
        present(in_tree).contains(watcher) <==> in_tree.has(watcher),
        present(in_tree).no_duplicates(),
{
    lemma_chosen(
        in_tree.scene_tree,
        in_tree.optimized_scene_tree,
        in_tree.collision,
        in_tree.input_event,
        watcher,
    );
}

/// After everything was taken down, setting up brings a helper node for every kind of message in
/// use, each once.
pub proof fn law_setup_after_teardown(messages: MessagesInUse, watcher: Watcher)
    ensures
        ({
            let nothing = WatchersInTree {
                scene_tree: false,
                optimized_scene_tree: false,
                collision: false,
                input_event: false,
            };
            &&& wanting(messages, nothing).contains(watcher) <==> (match watcher {
                Watcher::SceneTree => messages.scene_tree,
                Watcher::OptimizedSceneTree => messages.scene_tree,
                Watcher::Collision => messages.collisions,
                Watcher::InputEvent => messages.keyboard,
            })
            &&& wanting(messages, nothing).no_duplicates()
        }),
{
    lemma_chosen(
        messages.scene_tree,
        messages.scene_tree,
        messages.collisions,
        messages.keyboard,
        watcher,
    );
}

/// A helper node written as a script, as the host finds it.
#[derive(Clone, Copy, Debug, PartialEq, Eq, Structural)]
pub enum ScriptNode {
    /// The script of the watcher of the scene tree.
    OptimizedSceneTreeWatcher,
    /// The script behind batched operations.
    OptimizedBulkOperations,
}

impl ScriptNode {
    /// The name of the node.
    pub open spec fn spec_name(self) -> Seq<char> {
        match self {
            ScriptNode::OptimizedSceneTreeWatcher => "OptimizedSceneTreeWatcher"@,
            ScriptNode::OptimizedBulkOperations => "OptimizedBulkOperations"@,
        }
    }

    /// Where the script is.
    pub open spec fn spec_path(self) -> Seq<char> {
        match self {
            ScriptNode::OptimizedSceneTreeWatcher =>
                "res://addons/godot-bevy/optimized_scene_tree_watcher.gd"@,
            ScriptNode::OptimizedBulkOperations =>
                "res://addons/godot-bevy/optimized_bulk_operations.gd"@,
        }
    }

    /// The name of the node.
    pub fn name(&self) -> (r: &'static str)
        ensures
            r@ == self.spec_name(),
    {
        match self {
            ScriptNode::OptimizedSceneTreeWatcher => "OptimizedSceneTreeWatcher",
            ScriptNode::OptimizedBulkOperations => "OptimizedBulkOperations",
        }
    }

    /// Where the script is.
    pub fn path(&self) -> (r: &'static str)
        ensures
            r@ == self.spec_path(),
    {
        match self {
            ScriptNode::OptimizedSceneTreeWatcher =>
                "res://addons/godot-bevy/optimized_scene_tree_watcher.gd",
            ScriptNode::OptimizedBulkOperations =>
                "res://addons/godot-bevy/optimized_bulk_operations.gd",
        }
    }
}

/// What is done about a helper node written as a script.
#[derive(Clone, Copy, Debug, PartialEq, Eq, Structural)]
pub enum ScriptNodeStep {
    /// The node is there already.
    Keep,
    /// The script is there: load and instantiate it.
    Load,
    /// There is no script: go on without the node.
    Unavailable,
}

/// What is done about a helper node written as a script.
pub fn script_node_step(has_node: bool, file_exists: bool) -> (r: ScriptNodeStep)
    ensures
        r == (if has_node {
            ScriptNodeStep::Keep
        } else if file_exists {
            ScriptNodeStep::Load
        } else {
            ScriptNodeStep::Unavailable
        }),
{
    if has_node {
        ScriptNodeStep::Keep
    } else if file_exists {
        ScriptNodeStep::Load
    } else {
        ScriptNodeStep::Unavailable
    }
}

/// The helper nodes that are set up are those whose messages are in use and that are not there yet,
/// each once; the one for input is set up whether or not it is there. The watcher of the scene tree
/// comes before the optimized one, which hands its messages on to it.
pub proof fn law_wanting_watchers_are_set_up(messages: MessagesInUse, in_tree: WatchersInTree)
    ensures
        ({
            let list = wanting(messages, in_tree);
            &&& list.no_duplicates()
            &&& list.contains(Watcher::SceneTree) <==> messages.scene_tree && !in_tree.scene_tree
            &&& list.contains(Watcher::OptimizedSceneTree) <==> messages.scene_tree
                && !in_tree.optimized_scene_tree
            &&& list.contains(Watcher::Collision) <==> messages.collisions && !in_tree.collision
            &&& list.contains(Watcher::InputEvent) <==> messages.keyboard
            &&& list.contains(Watcher::SceneTree) ==> list[0] == Watcher::SceneTree
        }),
{
    lemma_each_chosen(
        messages.scene_tree && !in_tree.scene_tree,
        messages.scene_tree && !in_tree.optimized_scene_tree,
        messages.collisions && !in_tree.collision,
        messages.keyboard,
    );
}

/// The helper nodes that are taken down are those that are there, each once.
pub proof fn law_present_watchers_are_taken_down(in_tree: WatchersInTree)
    ensures
        ({
            let list = present(in_tree);
            &&& list.no_duplicates()
            &&& list.contains(Watcher::SceneTree) <==> in_tree.scene_tree
            &&& list.contains(Watcher::OptimizedSceneTree) <==> in_tree.optimized_scene_tree
            &&& list.contains(Watcher::Collision) <==> in_tree.collision
            &&& list.contains(Watcher::InputEvent) <==> in_tree.input_event
        }),
{
    lemma_each_chosen(
        in_tree.scene_tree,
        in_tree.optimized_scene_tree,
        in_tree.collision,
        in_tree.input_event,
    );
}

proof fn lemma_each_chosen(
    scene_tree: bool,
    optimized_scene_tree: bool,
    collision: bool,
    input_event: bool,
)
    ensures
        ({
            let list = chosen(scene_tree, optimized_scene_tree, collision, input_event);
            &&& list.no_duplicates()
            &&& list.contains(Watcher::SceneTree) <==> scene_tree
            &&& list.contains(Watcher::OptimizedSceneTree) <==> optimized_scene_tree
            &&& list.contains(Watcher::Collision) <==> collision
            &&& list.contains(Watcher::InputEvent) <==> input_event
        }),
{
    lemma_chosen(
        scene_tree,
        optimized_scene_tree,
        collision,
        input_event,
        Watcher::SceneTree,
    );
    lemma_chosen(
        scene_tree,
        optimized_scene_tree,
        collision,
        input_event,
        Watcher::OptimizedSceneTree,
    );
    lemma_chosen(scene_tree, optimized_scene_tree, collision, input_event, Watcher::Collision);
    lemma_chosen(scene_tree, optimized_scene_tree, collision, input_event, Watcher::InputEvent);
}

/// The names by which the helper nodes are found, and where the scripts are.
pub proof fn law_helper_nodes_have_their_names()
    ensures
        Watcher::SceneTree.spec_name() == "SceneTreeWatcher"@,
        Watcher::OptimizedSceneTree.spec_name() == "OptimizedSceneTreeWatcher"@,
        Watcher::Collision.spec_name() == "CollisionWatcher"@,
        Watcher::InputEvent.spec_name() == "InputEventWatcher"@,
        ScriptNode::OptimizedSceneTreeWatcher.spec_name()
            == Watcher::OptimizedSceneTree.spec_name(),
        ScriptNode::OptimizedBulkOperations.spec_name() == "OptimizedBulkOperations"@,
        ScriptNode::OptimizedSceneTreeWatcher.spec_path()
            == "res://addons/godot-bevy/optimized_scene_tree_watcher.gd"@,
        ScriptNode::OptimizedBulkOperations.spec_path()
            == "res://addons/godot-bevy/optimized_bulk_operations.gd"@,
{
}

} // verus!
