//! The plugin's configuration and the marks it puts on entities.

use vstd::prelude::*;

use crate::text::{contains_text, texts};

verus! {

/// The scene-tree plugin: messages about nodes, entities that mirror them, and the parent-child
/// relation among those.
#[derive(Clone, Copy, Debug, PartialEq, Eq, Structural)]
pub struct GodotSceneTreePlugin {
    /// Whether despawning a parent entity also despawns its children. Entities marked with
    /// [`ProtectedNodeEntity`] are never despawned that way.
    pub auto_despawn_children: bool,
}

impl Default for GodotSceneTreePlugin {
    fn default() -> (r: GodotSceneTreePlugin)
        ensures
            r == (GodotSceneTreePlugin { auto_despawn_children: true }),
    {
        GodotSceneTreePlugin { auto_despawn_children: true }
    }
}

impl GodotSceneTreePlugin {
    /// The configuration resource that the plugin puts into the world.
    pub fn config(&self) -> (r: SceneTreeConfig)
        ensures
            r.auto_despawn_children == self.auto_despawn_children,
    {
        SceneTreeConfig { auto_despawn_children: self.auto_despawn_children }
    }
}

/// How the scene tree is mirrored.
#[derive(Clone, Copy, Debug, PartialEq, Eq, Structural)]
pub struct SceneTreeConfig {
    /// Whether despawning a parent entity also despawns its children.
    pub auto_despawn_children: bool,
}

/// Marks an entity that outlives its node: when the node is freed the entity loses what it had
/// from the node and is otherwise kept.
#[derive(Clone, Copy, Debug, PartialEq, Eq, Structural)]
pub struct ProtectedNodeEntity;

/// The groups that a node is in.
#[derive(Debug)]
pub struct Groups {
    groups: Vec<String>,
}

impl View for Groups {
    type V = Seq<Seq<char>>;

    /// The names of the groups, in order.
    closed spec fn view(&self) -> Seq<Seq<char>> {
        texts(self.groups@)
    }
}

impl From<Vec<String>> for Groups {
    fn from(groups: Vec<String>) -> (r: Groups)
        ensures
            r@ == texts(groups@),
    {
        Groups { groups }
    }
}

impl vstd::std_specs::convert::FromSpecImpl<Vec<String>> for Groups {
    open spec fn obeys_from_spec() -> bool {
        true
    }

    closed spec fn from_spec(groups: Vec<String>) -> Groups {
        Groups { groups }
    }
}

impl Groups {
    /// Whether the node is in the group with this name.
    pub fn is(&self, group_name: &str) -> (r: bool)
        ensures
            r == self@.contains(group_name@),
    {
        contains_text(&self.groups, group_name)
    }

    /// A copy of the groups.
    pub fn copy(&self) -> (r: Groups)
        ensures
            r@ == self@,
    {
        Groups { groups: crate::text::copy_texts(&self.groups) }
    }

    /// The names of the groups, in order.
    pub fn into_names(self) -> (r: Vec<String>)
        ensures
            texts(r@) == self@,
    {
        self.groups
    }
}

} // verus!
