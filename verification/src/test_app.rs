//! The application as tests drive it: frame by frame, with a wait for the entity of a new node.

use vstd::prelude::*;
use vstd::string::StringExecFns;

use crate::ids::{Entity, InstanceId};
use crate::node_index::NodeEntityIndex;

verus! {

/// After this many frames a new application has settled: the messages about the nodes that were
/// there have been written, swapped and read.
pub const SETTLING_FRAMES: u32 = 2;

/// For this many frames a test waits for the entity of a new node.
pub const ENTITY_FRAMES: u32 = 3;

/// The application of a test, until it is cleaned up.
#[derive(Debug)]
pub struct TestApp<X, B> {
    pub ctx: X,
    pub bevy_app: Option<B>,
}

impl<X, B> TestApp<X, B> {
    /// The application of a test that has begun.
    pub fn new(ctx: X, bevy_app: B) -> (r: TestApp<X, B>)
        ensures
            r.ctx == ctx,
            r.bevy_app == Some(bevy_app),
    {
        TestApp { ctx, bevy_app: Some(bevy_app) }
    }

    /// What the test runs in.
    pub fn ctx(&self) -> (r: &X)
        ensures
            *r == self.ctx,
    {
        &self.ctx
    }

    /// The entity of a node, by the index of the world.
    pub fn entity_for_node(&self, index: &NodeEntityIndex, instance_id: InstanceId) -> (r: Option<
        Entity,
    >)
        ensures
            r == (if index@.contains_key(instance_id.value) {
                Some(index@[instance_id.value])
            } else {
                None
            }),
    {
        index.get(instance_id)
    }

    /// Whether a node has an entity, by the index of the world.
    pub fn has_entity_for_node(&self, index: &NodeEntityIndex, instance_id: InstanceId) -> (r: bool)
        ensures
            r == index@.contains_key(instance_id.value),
    {
        index.contains(instance_id)
    }

    /// Give the application up. What is handed back is to be torn down; a second time there is
    /// nothing left to give.
    pub fn cleanup(&mut self) -> (r: Option<B>)
        ensures
            r == old(self).bevy_app,
            final(self).bevy_app is None,
            final(self).ctx == old(self).ctx,
    {
        self.bevy_app.take()
    }
}

/// How a node came into the tree.
#[derive(Clone, Copy, Debug, PartialEq, Eq, Structural)]
pub enum NodeOrigin {
    /// The test asked for a new one.
    Added,
    /// The test built it.
    Prebuilt,
}

/// The wait for the entity of a new node.
#[derive(Clone, Copy, Debug, PartialEq, Eq, Structural)]
pub struct EntityWait {
    /// How many frames have passed without one.
    pub waited: u32,
}

/// What a look into the index after one more frame comes to.
#[derive(Clone, Copy, Debug, PartialEq, Eq, Structural)]
pub enum WaitStep {
    Found(Entity),
    /// Not yet: wait another frame. So many have passed.
    Again(u32),
    /// Not in the frames that were allowed.
    GiveUp,
}

/// What a look into the index comes to, after so many frames without an entity.
pub open spec fn wait_step(waited: u32, entity: Option<Entity>) -> WaitStep {
    match entity {
        Some(entity) => WaitStep::Found(entity),
        None => if waited + 1 < ENTITY_FRAMES {
            WaitStep::Again((waited + 1) as u32)
        } else {
            WaitStep::GiveUp
        },
    }
}

impl EntityWait {
    /// Before the first frame.
    pub fn new() -> (r: EntityWait)
        ensures
            r.waited == 0,
    {
        EntityWait { waited: 0 }
    }

    /// Look into the index after one more frame.
    pub fn look(&mut self, entity: Option<Entity>) -> (r: WaitStep)
        requires
            old(self).waited < ENTITY_FRAMES,
        ensures
            r == wait_step(old(self).waited, entity),
            final(self).waited == (if entity is Some {
                old(self).waited
            } else {
                (old(self).waited + 1) as u32
            }),
    {
        match entity {
            Some(entity) => WaitStep::Found(entity),
            None => {
                self.waited = self.waited + 1;
                if self.waited < ENTITY_FRAMES {
                    WaitStep::Again(self.waited)
                } else {
                    WaitStep::GiveUp
                }
            },
        }
    }
}

/// What a wait ends with, when the looks frame by frame find this. None, while it goes on.
pub open spec fn outcome(waited: u32, looks: Seq<Option<Entity>>) -> Option<WaitStep>
    decreases looks.len(),
{
    if looks.len() == 0 {
        None
    } else {
        match wait_step(waited, looks[0]) {
            WaitStep::Again(next) => outcome(next, looks.drop_first()),
            step => Some(step),
        }
    }
}

/// An entity that is there after the first, second or third frame is found, the first time it is
/// there; after three frames without one the wait is given up, and not before.
pub proof fn law_wait_takes_three_frames(looks: Seq<Option<Entity>>)
    requires
        looks.len() >= 3,
    ensures
        outcome(0, looks) == Some(
            if looks[0] is Some {
                WaitStep::Found(looks[0]->Some_0)
            } else if looks[1] is Some {
                WaitStep::Found(looks[1]->Some_0)
            } else if looks[2] is Some {
                WaitStep::Found(looks[2]->Some_0)
            } else {
                WaitStep::GiveUp
            },
        ),
        looks[0] is None ==> outcome(0, looks.take(1)) is None,
        looks[0] is None && looks[1] is None ==> outcome(0, looks.take(2)) is None,
{
    reveal_with_fuel(outcome, 4);
    let second = looks.drop_first();
    let third = second.drop_first();
    assert(second[0] == looks[1]);
    assert(third[0] == looks[2]);
    assert(looks.take(1).drop_first() =~= seq![]);
    assert(looks.take(2).drop_first() =~= seq![looks[1]]);
    assert(seq![looks[1]].drop_first() =~= seq![]);
}

/// How a node is spoken of.
pub open spec fn node_text(origin: NodeOrigin) -> Seq<char> {
    match origin {
        NodeOrigin::Added => "node"@,
        NodeOrigin::Prebuilt => "prebuilt node"@,
    }
}

fn node_word(origin: NodeOrigin) -> (r: &'static str)
    ensures
        r@ == node_text(origin),
{
    match origin {
        NodeOrigin::Added => "node",
        NodeOrigin::Prebuilt => "prebuilt node",
    }
}

/// How a number of frames below the limit is written.
pub open spec fn frames_text(frames: u32) -> Seq<char> {
    if frames == 1 {
        "1"@
    } else {
        "2"@
    }
}

/// What is said when the wait goes on.
pub fn waiting_message(origin: NodeOrigin, name: &str, frames: u32) -> (r: String)
    requires
        1 <= frames < ENTITY_FRAMES,
    ensures
        r@ == "Entity not yet created for "@ + node_text(origin) + " '"@ + name@ + "' after "@
            + frames_text(frames) + " frame(s), waiting another frame"@,
{
    let mut r: String = "Entity not yet created for ".to_owned();
    r.append(node_word(origin));
    r.append(" '");
    r.append(name);
    r.append("' after ");
    if frames == 1 {
        r.append("1");
    } else {
        r.append("2");
    }
    r.append(" frame(s), waiting another frame");
    r
}

/// What is said when the wait is given up.
pub fn missing_message(origin: NodeOrigin, name: &str) -> (r: String)
    ensures
        r@ == "Entity should exist for "@ + node_text(origin) + " '"@ + name@
            + "' after 3 frames"@,
{
    let mut r: String = "Entity should exist for ".to_owned();
    r.append(node_word(origin));
    r.append(" '");
    r.append(name);
    r.append("' after 3 frames");
    r
}

/// A look that finds an entity ends the wait with it. One that finds none goes on with the wait as
/// long as fewer than three frames have passed by then, and tells how many have; else it gives up.
pub proof fn law_look_goes_by_what_it_finds(waited: u32, entity: Option<Entity>)
    requires
        waited < u32::MAX,
    ensures
        match entity {
            Some(found) => wait_step(waited, entity) == WaitStep::Found(found),
            None => {
                &&& waited + 1 < 3 ==> wait_step(waited, entity) == WaitStep::Again(
                    (waited + 1) as u32,
                )
                &&& waited + 1 >= 3 ==> wait_step(waited, entity) == WaitStep::GiveUp
            },
        },
        SETTLING_FRAMES == 2,
        ENTITY_FRAMES == 3,
{
}

/// How a node and a number of frames are spoken of.
pub proof fn law_words_tell_the_node()
    ensures
        node_text(NodeOrigin::Added) == "node"@,
        node_text(NodeOrigin::Prebuilt) == "prebuilt node"@,
        frames_text(1) == "1"@,
        frames_text(2) == "2"@,
{
}

} // verus!
