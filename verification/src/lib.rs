//! Verified core of a rotation-profile manager and script runner for an x86 game client.

pub mod text;
pub mod xml;
pub mod loader;
pub mod stubs;
pub mod module;
pub mod threads;
pub mod process;
pub mod d3d9;
pub mod wow;
pub mod profiles;
