//! The `docs` command: plans, designs, ADRs and references.
pub mod model;
pub mod markdown;
pub mod select;
pub mod plan_json;
pub mod overview;
pub mod table;
