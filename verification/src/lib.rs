//! Content-package publishing: discovery, change detection, build planning
//! and request routing for a tree of independently authored packages.

pub mod build_mode;
pub mod builder;
pub mod database;
pub mod error;
pub mod github;
pub mod graphql;
pub mod metadata;
pub mod misc;
pub mod nodejs;
pub mod package_schema;
pub mod paths;
pub mod resolver;
pub mod router;
pub mod rss;
pub mod server;
pub mod static_assets;
pub mod string_map;
pub mod text;
pub mod time;
