//! The decision core of a bridge between the Godot engine and the Bevy ECS.
//!
//! What can be decided on plain values is decided here: which ECS commands mirror a batch of
//! scene-tree messages, by which steps an application is built and which schedules a frame callback
//! runs, what an audio command does to the sounds that are playing, how a packed scene is loaded. The
//! host reads the engine and the world, hands the readings in, and performs what comes back. It is
//! also the host that schedules its systems, computes the levels that a gradual change passes through,
//! and runs the builders and mappers of its users.

pub mod app;
pub mod audio;
pub mod ids;
pub mod node_index;
pub mod packed_scene;
pub mod scene_tree;
pub mod test_app;
pub mod text;
