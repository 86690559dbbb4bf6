//! Configuration: command-line arguments combined with git configuration
//! values, the command line first, then git, then the defaults.

pub mod app_config;
pub mod git_config;
pub mod git_reader;

pub use app_config::{AppConfig, CliArgs, ConfigBuilder};
pub use git_config::{ConfigError, GitConfig};
pub use git_reader::{GitConfigReader, GitError, MockGitConfigReader, SystemGitConfigReader};
