//! Core of a desktop launcher for a game modification: locating a Steam
//! installation, validating a game directory, planning the extraction of the
//! bundled archive, checking whether the game runs, and planning its launch.
pub mod types;
pub mod text;
pub mod version;
pub mod paths;
pub mod launch;
pub mod stats;
pub mod install;
pub mod process;
pub mod extract;
