//! A stream filter for unified diffs. It drops the sections of files that
//! ignore rules or version-control patterns exclude, and resolves the
//! directory whose ignore rules apply to a diff.
//!
//! - [`filter`]: which files a diff may speak of, and the partitioning of a
//!   diff into the sections that are kept.
//! - [`root_finder`]: the root directory of a diff, from the paths of its
//!   headers and from what the caller found out about them.
//! - [`suffix`], [`path_order`]: the closing components that paths share,
//!   and the order of paths.
//! - [`config`]: the configuration of a run, from the command line and the
//!   git configuration.
//! - [`error`]: the error type.
//! - [`vcs`], [`header`], [`rules`]: version-control patterns, the header
//!   lines of a diff, and what ignore rules say of a path.
//! - [`matcher`], [`paths`], [`text`]: the ignore-rule matcher, normalized
//!   paths, and text as sequences of characters.
//!
//! The library reads no file and starts no process: the caller hands it the
//! bytes of the diff and of the ignore file, and the facts about paths and
//! repositories that the decisions rest on.

pub mod config;
pub mod error;
pub mod filter;
pub mod header;
pub mod matcher;
pub mod path_order;
pub mod paths;
pub mod root_finder;
pub mod rules;
pub mod suffix;
pub mod text;
pub mod vcs;

pub use config::{
    AppConfig, ConfigError, GitConfig, GitConfigReader, MockGitConfigReader,
    SystemGitConfigReader,
};
pub use error::Error;
pub use filter::Filter;
pub use root_finder::RootFinder;
