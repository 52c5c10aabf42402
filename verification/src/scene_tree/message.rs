//! Scene-tree messages, and the ones that describe the tree as it is at startup.

use vstd::prelude::*;

use crate::ids::{GodotNodeHandle, InstanceId};
use crate::scene_tree::tree::{mirrored_ids, traverse_fallback, SceneNode};
use crate::text::{
    copy_opt_text, copy_opt_texts, copy_texts, opt_text, opt_texts, texts,
};

verus! {

/// What happened to a node of the scene tree.
#[derive(Clone, Copy, Debug, PartialEq, Eq, Structural)]
pub enum SceneTreeMessageType {
    NodeAdded,
    NodeRemoved,
    NodeRenamed,
}

/// A change of the scene tree. What the watcher could not find out ahead of time is `None`.
#[derive(Debug)]
pub struct SceneTreeMessage {
    pub node_id: GodotNodeHandle,
    pub message_type: SceneTreeMessageType,
    pub node_type: Option<String>,
    pub node_name: Option<String>,
    pub parent_id: Option<InstanceId>,
    pub collision_mask: Option<u8>,
    pub groups: Option<Vec<String>>,
}

/// The contents of a scene-tree message.
pub struct SceneTreeMessageView {
    pub node_id: GodotNodeHandle,
    pub message_type: SceneTreeMessageType,
    pub node_type: Option<Seq<char>>,
    pub node_name: Option<Seq<char>>,
    pub parent_id: Option<InstanceId>,
    pub collision_mask: Option<u8>,
    pub groups: Option<Seq<Seq<char>>>,
}

impl View for SceneTreeMessage {
    type V = SceneTreeMessageView;

    open spec fn view(&self) -> SceneTreeMessageView {
        SceneTreeMessageView {
            node_id: self.node_id,
            message_type: self.message_type,
            node_type: opt_text(self.node_type),
            node_name: opt_text(self.node_name),
            parent_id: self.parent_id,
            collision_mask: self.collision_mask,
            groups: opt_texts(self.groups),
        }
    }
}

impl SceneTreeMessage {
    /// A copy of the message.
    pub fn copy(&self) -> (r: SceneTreeMessage)
        ensures
            r@ == self@,
    {
        SceneTreeMessage {
            node_id: self.node_id,
            message_type: self.message_type,
            node_type: copy_opt_text(&self.node_type),
            node_name: copy_opt_text(&self.node_name),
            parent_id: self.parent_id,
            collision_mask: self.collision_mask,
            groups: copy_opt_texts(&self.groups),
        }
    }
}

/// The message that a node is in the tree, with nothing found out ahead of time.
pub open spec fn bare_added(id: InstanceId) -> SceneTreeMessageView {
    SceneTreeMessageView {
        node_id: GodotNodeHandle { id },
        message_type: SceneTreeMessageType::NodeAdded,
        node_type: None,
        node_name: None,
        parent_id: None,
        collision_mask: None,
        groups: None,
    }
}

/// The watcher's analysis of the tree at startup, one row per node, column by column. The later
/// columns come only from newer watchers, and may be short.
pub struct InitialTreeAnalysis {
    pub instance_ids: Vec<i64>,
    pub node_types: Vec<String>,
    pub node_names: Option<Vec<String>>,
    pub parent_ids: Option<Vec<i64>>,
    pub collision_masks: Option<Vec<i64>>,
    pub groups: Option<Vec<Vec<String>>>,
}

impl InitialTreeAnalysis {
    /// How many rows have both an id and a type.
    pub open spec fn rows(&self) -> int {
        if self.instance_ids@.len() <= self.node_types@.len() {
            self.instance_ids@.len() as int
        } else {
            self.node_types@.len() as int
        }
    }

    /// No row has the id zero, which names no node.
    pub open spec fn wf(&self) -> bool {
        forall|i: int| 0 <= i < self.rows() ==> (#[trigger] self.instance_ids@[i]) != 0
    }

    /// The name in row `i`.
    pub open spec fn name_at(&self, i: int) -> Option<Seq<char>> {
        match self.node_names {
            Some(names) => if i < names@.len() {
                Some(names@[i]@)
            } else {
                None
            },
            None => None,
        }
    }

    /// The parent in row `i`: only a positive number names one.
    pub open spec fn parent_at(&self, i: int) -> Option<InstanceId> {
        match self.parent_ids {
            Some(ids) => if i < ids@.len() && ids@[i] > 0 {
                Some(InstanceId { value: ids@[i] })
            } else {
                None
            },
            None => None,
        }
    }

    /// The collision mask in row `i`: only a number that fits a byte is one.
    pub open spec fn mask_at(&self, i: int) -> Option<u8> {
        match self.collision_masks {
            Some(masks) => if i < masks@.len() && 0 <= masks@[i] <= 255 {
                Some(masks@[i] as u8)
            } else {
                None
            },
            None => None,
        }
    }

    /// The groups in row `i`.
    pub open spec fn groups_at(&self, i: int) -> Option<Seq<Seq<char>>> {
        match self.groups {
            Some(groups) => if i < groups@.len() {
                Some(texts(groups@[i]@))
            } else {
                None
            },
            None => None,
        }
    }

    /// The message for row `i`.
    pub open spec fn message_at(&self, i: int) -> SceneTreeMessageView {
        SceneTreeMessageView {
            node_id: GodotNodeHandle { id: InstanceId { value: self.instance_ids@[i] } },
            message_type: SceneTreeMessageType::NodeAdded,
            node_type: Some(self.node_types@[i]@),
            node_name: self.name_at(i),
            parent_id: self.parent_at(i),
            collision_mask: self.mask_at(i),
            groups: self.groups_at(i),
        }
    }

    /// One message per row that has both an id and a type, in order.
    pub fn messages(&self) -> (r: Vec<SceneTreeMessage>)
        requires
            self.wf(),
        ensures
            r@.len() == self.rows(),
            forall|i: int| 0 <= i < r@.len() ==> (#[trigger] r@[i])@ == self.message_at(i),
    {
        let ids: usize = self.instance_ids.len();
        let types: usize = self.node_types.len();
        let rows: usize = if ids <= types {
            ids
        } else {
            types
        };
        let mut r: Vec<SceneTreeMessage> = Vec::new();
        for i in 0..rows
            invariant
                self.wf(),
                rows == self.rows(),
                rows <= self.instance_ids@.len(),
                rows <= self.node_types@.len(),
                r@.len() == i,
                forall|k: int| 0 <= k < i ==> (#[trigger] r@[k])@ == self.message_at(k),
        {
            assert(self.instance_ids@[i as int] != 0);
            let id: i64 = self.instance_ids[i];
            let node_name: Option<String> = match &self.node_names {
                Some(names) => if i < names.len() {
                    Some(names[i].clone())
                } else {
                    None
                },
                None => None,
            };
            let parent_id: Option<InstanceId> = match &self.parent_ids {
                Some(parents) => if i < parents.len() && parents[i] > 0 {
                    Some(InstanceId::from_i64(parents[i]))
                } else {
                    None
                },
                None => None,
            };
            let collision_mask: Option<u8> = match &self.collision_masks {
                Some(masks) => if i < masks.len() && 0 <= masks[i] && masks[i] <= 255 {
                    Some(masks[i] as u8)
                } else {
                    None
                },
                None => None,
            };
            let groups: Option<Vec<String>> = match &self.groups {
                Some(lists) => if i < lists.len() {
                    Some(copy_texts(&lists[i]))
                } else {
                    None
                },
                None => None,
            };
            let message = SceneTreeMessage {
                node_id: GodotNodeHandle::from_instance_id(InstanceId::from_i64(id)),
                message_type: SceneTreeMessageType::NodeAdded,
                node_type: Some(self.node_types[i].clone()),
                node_name,
                parent_id,
                collision_mask,
                groups,
            };
            assert(message@ == self.message_at(i as int));
            r.push(message);
        }
        r
    }
}

/// Whether these are the messages of a snapshot: a row of the analysis each, where there is one; else
/// a bare message for each node that is mirrored, in the order of the tree.
pub open spec fn describes(
    analysis: Option<InitialTreeAnalysis>,
    root: SceneNode,
    messages: Seq<SceneTreeMessage>,
) -> bool {
    match analysis {
        Some(a) => {
            &&& messages.len() == a.rows()
            &&& forall|i: int|
                0 <= i < messages.len() ==> (#[trigger] messages[i])@ == a.message_at(i)
        },
        None => {
            &&& messages.len() == mirrored_ids(root).len()
            &&& forall|i: int|
                0 <= i < messages.len() ==> (#[trigger] messages[i])@ == bare_added(
                    mirrored_ids(root)[i],
                )
        },
    }
}

/// The messages that describe the tree at startup: the watcher's analysis when there is one, else
/// a walk of the tree below `root`.
pub fn initial_scene_tree_messages(
    analysis: Option<&InitialTreeAnalysis>,
    root: &SceneNode,
) -> (r: Vec<SceneTreeMessage>)
    requires
        analysis matches Some(a) ==> a.wf(),
    ensures
        describes(
            match analysis {
                Some(a) => Some(*a),
                None => None,
            },
            *root,
            r@,
        ),
{
    match analysis {
        Some(a) => a.messages(),
        None => traverse_fallback(root),
    }
}

/// The analysis gives one message for each row that has both an id and a type, in the order of the
/// rows, and each says what stands in its row: the node with that id is in the tree, with that type.
/// A later column tells of a row only where it reaches it: the name and the groups as they stand
/// there, the parent if the number is positive, the mask if the number fits a byte.
pub proof fn law_analysis_is_told_row_by_row(
    analysis: InitialTreeAnalysis,
    root: SceneNode,
    messages: Seq<SceneTreeMessage>,
    i: int,
)
    requires
        describes(Some(analysis), root, messages),
        0 <= i < messages.len(),
    ensures
        messages.len() <= analysis.instance_ids@.len(),
        messages.len() <= analysis.node_types@.len(),
        messages.len() == analysis.instance_ids@.len() || messages.len()
            == analysis.node_types@.len(),
        messages[i]@.message_type == SceneTreeMessageType::NodeAdded,
        messages[i]@.node_id.id.value == analysis.instance_ids@[i],
        messages[i]@.node_type == Some(analysis.node_types@[i]@),
        match analysis.node_names {
            Some(names) => {
                &&& i < names@.len() ==> messages[i]@.node_name == Some(names@[i]@)
                &&& i >= names@.len() ==> messages[i]@.node_name is None
            },
            None => messages[i]@.node_name is None,
        },
        match analysis.parent_ids {
            Some(ids) => {
                &&& i < ids@.len() && ids@[i] > 0 ==> messages[i]@.parent_id == Some(
                    InstanceId { value: ids@[i] },
                )
                &&& i >= ids@.len() || ids@[i] <= 0 ==> messages[i]@.parent_id is None
            },
            None => messages[i]@.parent_id is None,
        },
        match analysis.collision_masks {
            Some(masks) => {
                &&& i < masks@.len() && 0 <= masks@[i] <= 255 ==> {
                    &&& messages[i]@.collision_mask is Some
                    &&& messages[i]@.collision_mask->Some_0 == masks@[i]
                }
                &&& i >= masks@.len() || masks@[i] < 0 || masks@[i] > 255
                    ==> messages[i]@.collision_mask is None
            },
            None => messages[i]@.collision_mask is None,
        },
        match analysis.groups {
            Some(groups) => {
                &&& i < groups@.len() ==> {
                    &&& messages[i]@.groups is Some
                    &&& messages[i]@.groups->Some_0.len() == groups@[i]@.len()
                    &&& forall|k: int|
                        0 <= k < groups@[i]@.len() ==> #[trigger] messages[i]@.groups->Some_0[k]
                            == groups@[i]@[k]@
                }
                &&& i >= groups@.len() ==> messages[i]@.groups is None
            },
            None => messages[i]@.groups is None,
        },
{
    assert(messages[i]@ == analysis.message_at(i));
}

/// The rows that are told are those that have both an id and a type; none of them may have the id zero.
pub proof fn law_rows_are_those_with_id_and_type(analysis: InitialTreeAnalysis)
    ensures
        analysis.rows() <= analysis.instance_ids@.len(),
        analysis.rows() <= analysis.node_types@.len(),
        analysis.rows() == analysis.instance_ids@.len() || analysis.rows()
            == analysis.node_types@.len(),
        analysis.wf() <==> forall|i: int|
            0 <= i < analysis.instance_ids@.len() && i < analysis.node_types@.len() ==> (
            #[trigger] analysis.instance_ids@[i]) != 0,
{
}

/// Without an analysis each node that is mirrored is announced by its id, in the order of the tree,
/// with nothing else said of it.
pub proof fn law_walked_nodes_are_announced_bare(
    root: SceneNode,
    messages: Seq<SceneTreeMessage>,
    i: int,
)
    requires
        describes(None, root, messages),
    ensures
        messages.len() == mirrored_ids(root).len(),
        0 <= i < messages.len() ==> {
            &&& messages[i]@.node_id.id == mirrored_ids(root)[i]
            &&& messages[i]@.message_type == SceneTreeMessageType::NodeAdded
            &&& messages[i]@.node_type is None
            &&& messages[i]@.node_name is None
            &&& messages[i]@.parent_id is None
            &&& messages[i]@.collision_mask is None
            &&& messages[i]@.groups is None
        },
{
    if 0 <= i < messages.len() {
        assert(messages[i]@ == bare_added(mirrored_ids(root)[i]));
    }
}

} // verus!
