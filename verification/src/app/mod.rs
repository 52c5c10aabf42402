//! The application node: how it is built, torn down, driven frame by frame, and sent events.

pub mod bevy_app;
pub mod construction;
pub mod events;
pub mod frame_laws;
pub mod registry;
pub mod watchers;
