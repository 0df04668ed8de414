//! Artifact cache and download engine for a modpack installation tool.
//!
//! The library is the decision core of the engine: cache-path derivation,
//! the redirect-following state machine, download planning (conditional
//! requests, server-derived filenames), the folder-cache recovery protocol,
//! and the symlink-or-copy publisher latch.  All filesystem and network
//! effects are performed by the surrounding application, which feeds their
//! outcomes back into these verified functions as plain values.

pub mod cache;
pub mod curseforge;
pub mod error;
pub mod download;
pub mod forge_version;
pub mod maven;
pub mod mc_libs;
pub mod mod_source;
pub mod redirect;
pub mod strutil;
pub mod util;
pub mod web;
