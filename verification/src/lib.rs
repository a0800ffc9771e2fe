//! The logic of the GregTech Lite modpack installer: where the modpack is
//! fetched from, where it goes, and how an interrupted download is resumed.
//!
//! Nothing here reads a disk, a clock or a network. [`install::Install`] is a
//! state machine: it names the next piece of outside work ([`work::Action`])
//! and takes back what came of it ([`work::Event`]). The program around the
//! library does that work.

pub mod aftermath;
pub mod config;
pub mod decisions;
pub mod disk;
pub mod download;
pub mod error;
pub mod install;
pub mod laws;
pub mod paths;
pub mod plain;
pub mod report;
pub mod response;
pub mod size;
pub mod text;
pub mod told;
pub mod work;
