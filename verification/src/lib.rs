//! Building blocks of a Qt bridge application and its tooling: the explicit
//! process environment handed to build commands, the runtime configuration
//! with its defaults, and the planning of versioned schema migrations.

pub mod config;
pub mod env;
pub mod migrations;
