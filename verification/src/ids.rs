//! The identifiers that cross the bridge, as plain integers.

use vstd::prelude::*;

verus! {

/// The instance id of a Godot object, in the signed form that scripts see.
///
/// The engine never hands out zero: [`InstanceId::try_from_i64`] refuses it.
#[derive(Clone, Copy, Debug, PartialEq, Eq, Structural, Hash)]
pub struct InstanceId {
    pub value: i64,
}

impl InstanceId {
    /// Whether the engine can have handed this id out.
    pub open spec fn wf(self) -> bool {
        self.value != 0
    }

    /// The instance id with this number, or `None` for zero.
    pub fn try_from_i64(id: i64) -> (r: Option<InstanceId>)
        ensures
            r == (if id != 0 { Some(InstanceId { value: id }) } else { None }),
            r matches Some(i) ==> i.wf(),
    {
        if id != 0 {
            Some(InstanceId { value: id })
        } else {
            None
        }
    }

    /// The instance id with this number, which must not be zero.
    pub fn from_i64(id: i64) -> (r: InstanceId)
        requires
            id != 0,
        ensures
            r == (InstanceId { value: id }),
            r.wf(),
    {
        InstanceId { value: id }
    }

    /// The number that scripts see.
    pub fn to_i64(self) -> (r: i64)
        ensures
            r == self.value,
    {
        self.value
    }
}

/// A handle to a Godot node: the node's instance id, which stays a plain value when the node is
/// freed.
#[derive(Clone, Copy, Debug, PartialEq, Eq, Structural, Hash)]
pub struct GodotNodeHandle {
    pub id: InstanceId,
}

impl GodotNodeHandle {
    /// The handle of the node with this instance id.
    pub fn from_instance_id(id: InstanceId) -> (r: GodotNodeHandle)
        ensures
            r == (GodotNodeHandle { id }),
    {
        GodotNodeHandle { id }
    }

    /// The instance id of the node behind the handle.
    pub fn instance_id(self) -> (r: InstanceId)
        ensures
            r == self.id,
    {
        self.id
    }
}

/// An ECS entity, as the bits of its identifier.
#[derive(Clone, Copy, Debug, PartialEq, Eq, Structural, Hash)]
pub struct Entity {
    pub bits: u64,
}

impl Entity {
    /// The entity whose identifier has these bits.
    pub fn from_bits(bits: u64) -> (r: Entity)
        ensures
            r == (Entity { bits }),
    {
        Entity { bits }
    }

    /// The bits of the identifier.
    pub fn to_bits(self) -> (r: u64)
        ensures
            r == self.bits,
    {
        self.bits
    }
}

} // verus!
