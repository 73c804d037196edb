//! Core logic of a Minecraft launcher service: which files a version needs and where they come
//! from, how the game is started, and how the jobs of the service are run.
pub mod digest;
pub mod download;
pub mod launcher;
pub mod laws;
pub mod natives;
pub mod paths;
pub mod patterns;
pub mod plan;
pub mod service;
pub mod table;
pub mod tasks;
pub mod text;
pub mod versions;
