pub mod glob;
pub mod laws;
pub mod matcher;
pub mod report;
pub mod rule;
pub mod rule_set;
pub mod text;
