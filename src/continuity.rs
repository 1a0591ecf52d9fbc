//! The continuity consistency engine.
pub mod alert;
pub mod assertion;
pub mod detector;
pub mod matcher;
pub mod position;
pub mod scan;
pub mod store;
pub mod text;

pub use alert::{
    AlertCandidate, AlertLog, AlertType, AuthorDecision, ConflictElement, ContinuityAlert,
    ElementKind, Severity,
};
pub use assertion::{AttributeAssertion, extract_assertions};
pub use detector::ScanConfig;
pub use position::compare;
pub use scan::{ScanScope, ScanSummary, scan, scan_project, scan_scene};
pub use store::{NarrativePosition, NarrativeStore, SceneRecord, StateSnapshot, WorldRuleRecord};
