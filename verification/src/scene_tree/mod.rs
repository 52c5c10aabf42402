//! Mirroring of the Godot scene tree into the ECS.

pub mod collision;
pub mod connect;
pub mod hierarchy;
pub mod index_laws;
pub mod message;
pub mod mirror;
pub mod mirror_laws;
pub mod pause;
pub mod plugin;
pub mod reader;
pub mod startup;
pub mod step_laws;
pub mod tree;
pub mod tree_laws;
