//! A continuity consistency engine for narrative projects: it reads the
//! scenes, character state snapshots and world rules of a project, finds
//! character-state conflicts, world-rule violations and timeline
//! contradictions, and records them as deduplicated alerts that authors
//! resolve.
pub mod continuity;
pub mod error;
pub mod models;
pub mod validation;

pub use error::StoryError;
