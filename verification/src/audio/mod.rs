//! Audio: channels, commands, gradual changes, and the players that carry them out.

pub mod channels;
pub mod command_laws;
pub mod frame;
pub mod frame_laws;
pub mod main_thread;
pub mod output;
pub mod play;
pub mod types;
