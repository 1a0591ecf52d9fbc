//! The enumerations of the narrative data model, with their stored names.
pub mod character;
pub mod project;
pub mod scene;
pub mod world_rule;

pub use character::{CharacterRole, RelationshipType};
pub use project::{ProjectLength, ProjectStatus};
pub use scene::{SceneStatus, StructureType};
pub use world_rule::RuleScope;
