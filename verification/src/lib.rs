pub mod text;
pub mod order;
pub mod args;
pub mod cli;
pub mod commands;
pub mod output;
pub mod progress;
pub mod config;
pub mod manifest;
pub mod plugin;
pub mod plugin_table;
pub mod frontmatter;
pub mod paths;
pub mod docs;
pub mod prompt;
pub mod prompt_table;
pub mod skills;
pub mod skills_report;
pub mod ulid;
pub mod health_config;
pub mod help;
