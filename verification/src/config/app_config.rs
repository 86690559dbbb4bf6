//! The configuration of one run: command-line arguments first, then the git
//! configuration, then the defaults.

use crate::config::git_config::{
    downstream_setting, enabled_reading, opt_patterns_view, opt_text_view, outcome_view,
    pattern_list, patterns_of, patterns_setting, patterns_view, ConfigError, ConfigErrorView,
    GitConfig, DOWNSTREAM_KEY, VCS_ENABLED_KEY, VCS_PATTERNS_KEY,
};
use crate::config::git_reader::{answer_view, GitConfigReader, GitError};
use crate::text::{opt_text, texts};
use vstd::prelude::*;

verus! {

/// The arguments of the command line.
#[derive(Debug, Clone, PartialEq, Eq)]
pub struct CliArgs {
    /// Switches version-control filtering on.
    pub vcs: bool,
    /// Switches version-control filtering off.
    pub no_vcs: bool,
    /// The downstream command.
    pub downstream: Option<String>,
    /// The version-control patterns, separated by commas.
    pub vcs_pattern: Option<String>,
}

/// The configuration of one run.
#[derive(Debug, Clone)]
pub struct AppConfig {
    vcs_enabled: bool,
    vcs_patterns: Vec<String>,
    downstream_filter: Option<String>,
}

/// Builds a configuration step by step.
#[derive(Debug, Clone)]
pub struct ConfigBuilder {
    vcs_enabled: Option<bool>,
    vcs_patterns: Option<Vec<String>>,
    downstream_filter: Option<String>,
}

/// The version-control patterns that hold where none are configured.
pub open spec fn default_patterns() -> Seq<Seq<char>> {
    seq![".git/"@, ".svn/"@, "_svn/"@, ".hg/"@, "CVS/"@, "CVSROOT/"@, ".bzr/"@]
}

/// What an optional list of patterns holds.
pub open spec fn list_view(o: Option<Vec<String>>) -> Option<Seq<Seq<char>>> {
    match o {
        Some(v) => Some(texts(v@)),
        None => None,
    }
}

/// The reading of the patterns of the command line: a list without a pattern
/// is refused.
pub open spec fn cli_patterns_reading(value: Seq<char>) -> Result<
    Seq<Seq<char>>,
    ConfigErrorView,
> {
    if pattern_list(value).len() == 0 {
        Err(
            ConfigErrorView::InvalidCliArgument {
                argument: "--vcs-pattern"@,
                value,
                expected: "comma-separated list of non-empty patterns"@,
            },
        )
    } else {
        Ok(pattern_list(value))
    }
}

/// Whether version-control filtering is on: the command line decides, with
/// the switch for on before the switch for off; then the git configuration;
/// then it is on. A failure of the git configuration is an error where the
/// command line does not decide.
pub open spec fn enabled_choice(
    vcs: bool,
    no_vcs: bool,
    git: Result<Option<bool>, ConfigErrorView>,
) -> Result<bool, ConfigErrorView> {
    if vcs {
        Ok(true)
    } else if no_vcs {
        Ok(false)
    } else {
        match git {
            Ok(Some(enabled)) => Ok(enabled),
            Ok(None) => Ok(true),
            Err(e) => Err(e),
        }
    }
}

/// The version-control patterns: those of the command line replace all
/// others; then those of the git configuration; then the defaults.
pub open spec fn patterns_choice(
    cli: Option<Seq<char>>,
    git: Result<Option<Seq<Seq<char>>>, ConfigErrorView>,
) -> Result<Seq<Seq<char>>, ConfigErrorView> {
    match cli {
        Some(value) => cli_patterns_reading(value),
        None => match git {
            Ok(Some(patterns)) => Ok(patterns),
            Ok(None) => Ok(default_patterns()),
            Err(e) => Err(e),
        },
    }
}

/// The downstream command: that of the command line; then that of the git
/// configuration.
pub open spec fn downstream_choice(
    cli: Option<Seq<char>>,
    git: Result<Option<Seq<char>>, ConfigErrorView>,
) -> Result<Option<Seq<char>>, ConfigErrorView> {
    match cli {
        Some(command) => Ok(Some(command)),
        None => git,
    }
}

impl ConfigBuilder {
    /// What the builder holds for the switch.
    pub closed spec fn enabled(&self) -> Option<bool> {
        self.vcs_enabled
    }

    /// What the builder holds for the patterns.
    pub closed spec fn patterns(&self) -> Option<Seq<Seq<char>>> {
        list_view(self.vcs_patterns)
    }

    /// What the builder holds for the downstream command.
    pub closed spec fn downstream(&self) -> Option<Seq<char>> {
        opt_text(self.downstream_filter)
    }

    /// A builder that holds nothing.
    #[must_use]
    pub fn new() -> (b: ConfigBuilder)
        ensures
            b.enabled() is None,
            b.patterns() is None,
            b.downstream() is None,
    {
        ConfigBuilder { vcs_enabled: None, vcs_patterns: None, downstream_filter: None }
    }

    /// The builder with the switch set.
    #[must_use]
    pub fn with_vcs_enabled(self, enabled: bool) -> (b: ConfigBuilder)
        ensures
            b.enabled() == Some(enabled),
            b.patterns() == self.patterns(),
            b.downstream() == self.downstream(),
    {
        ConfigBuilder {
            vcs_enabled: Some(enabled),
            vcs_patterns: self.vcs_patterns,
            downstream_filter: self.downstream_filter,
        }
    }

    /// The builder with the patterns set.
    #[must_use]
    pub fn with_vcs_patterns(self, patterns: Vec<String>) -> (b: ConfigBuilder)
        ensures
            b.patterns() == Some(texts(patterns@)),
            b.enabled() == self.enabled(),
            b.downstream() == self.downstream(),
    {
        ConfigBuilder {
            vcs_enabled: self.vcs_enabled,
            vcs_patterns: Some(patterns),
            downstream_filter: self.downstream_filter,
        }
    }

    /// The builder with the downstream command set, or taken away.
    pub fn with_downstream_filter(self, filter: Option<String>) -> (b: ConfigBuilder)
        ensures
            b.downstream() == opt_text(filter),
            b.enabled() == self.enabled(),
            b.patterns() == self.patterns(),
    {
        ConfigBuilder {
            vcs_enabled: self.vcs_enabled,
            vcs_patterns: self.vcs_patterns,
            downstream_filter: filter,
        }
    }

    /// The configuration: what the builder holds, and the defaults for the
    /// rest: filtering on, the default patterns, no downstream command.
    pub fn build(self) -> (c: AppConfig)
        ensures
            c.enabled() == match self.enabled() {
                Some(enabled) => enabled,
                None => true,
            },
            c.patterns() == match self.patterns() {
                Some(patterns) => patterns,
                None => default_patterns(),
            },
            c.downstream() == self.downstream(),
    {
        AppConfig {
            vcs_enabled: match self.vcs_enabled {
                Some(enabled) => enabled,
                None => true,
            },
            vcs_patterns: match self.vcs_patterns {
                Some(patterns) => patterns,
                None => Self::default_vcs_patterns(),
            },
            downstream_filter: self.downstream_filter,
        }
    }

    /// The default version-control patterns.
    pub fn default_vcs_patterns() -> (r: Vec<String>)
        ensures
            texts(r@) == default_patterns(),
    {
        let mut r: Vec<String> = Vec::new();
        r.push(".git/".to_owned());
        r.push(".svn/".to_owned());
        r.push("_svn/".to_owned());
        r.push(".hg/".to_owned());
        r.push("CVS/".to_owned());
        r.push("CVSROOT/".to_owned());
        r.push(".bzr/".to_owned());
        assert(texts(r@) =~= default_patterns());
        r
    }
}

impl Default for ConfigBuilder {
    fn default() -> (b: ConfigBuilder)
        ensures
            b.enabled() is None,
            b.patterns() is None,
            b.downstream() is None,
    {
        ConfigBuilder::new()
    }
}

impl AppConfig {
    /// Whether version-control filtering is on.
    pub closed spec fn enabled(&self) -> bool {
        self.vcs_enabled
    }

    /// The version-control patterns.
    pub closed spec fn patterns(&self) -> Seq<Seq<char>> {
        texts(self.vcs_patterns@)
    }

    /// The downstream command.
    pub closed spec fn downstream(&self) -> Option<Seq<char>> {
        opt_text(self.downstream_filter)
    }

    /// Whether the configuration is what the three choices give.
    pub open spec fn is_choice(
        r: Result<AppConfig, ConfigError>,
        cli_args: CliArgs,
        git_enabled: Result<Option<bool>, ConfigErrorView>,
        git_patterns: Result<Option<Seq<Seq<char>>>, ConfigErrorView>,
        git_downstream: Result<Option<Seq<char>>, ConfigErrorView>,
    ) -> bool {
        let enabled = enabled_choice(cli_args.vcs, cli_args.no_vcs, git_enabled);
        let patterns = patterns_choice(opt_text(cli_args.vcs_pattern), git_patterns);
        let downstream = downstream_choice(opt_text(cli_args.downstream), git_downstream);
        match (enabled, patterns, downstream) {
            (Ok(e), Ok(p), Ok(d)) => r matches Ok(c) && c.enabled() == e && c.patterns() == p
                && c.downstream() == d,
            (Err(e), _, _) => r matches Err(x) && x@ == e,
            (Ok(_), Err(e), _) => r matches Err(x) && x@ == e,
            (Ok(_), Ok(_), Err(e)) => r matches Err(x) && x@ == e,
        }
    }

    /// The configuration of a run, from the command line and from what the
    /// git configuration gave for the three keys. The command line comes
    /// first, then the git configuration, then the defaults. The first
    /// failure, of the switch, then of the patterns, then of the downstream
    /// command, is the error.
    pub fn from_sources(
        cli_args: CliArgs,
        git_enabled: Result<Option<bool>, ConfigError>,
        git_patterns: Result<Option<Vec<String>>, ConfigError>,
        git_downstream: Result<Option<String>, ConfigError>,
    ) -> (r: Result<AppConfig, ConfigError>)
        ensures
            Self::is_choice(
                r,
                cli_args,
                outcome_view(git_enabled),
                opt_patterns_view(git_patterns),
                opt_text_view(git_downstream),
            ),
    {
        let enabled = match Self::resolve_vcs_enabled(&cli_args, git_enabled) {
            Ok(enabled) => enabled,
            Err(e) => {
                return Err(e);
            },
        };
        let patterns = match Self::resolve_vcs_patterns(&cli_args, git_patterns) {
            Ok(patterns) => patterns,
            Err(e) => {
                return Err(e);
            },
        };
        let downstream = match Self::resolve_downstream_filter(cli_args.downstream, git_downstream) {
            Ok(downstream) => downstream,
            Err(e) => {
                return Err(e);
            },
        };
        let builder = ConfigBuilder::new().with_vcs_enabled(enabled).with_vcs_patterns(
            patterns,
        ).with_downstream_filter(downstream);
        Ok(builder.build())
    }

    /// The configuration of a run, from the command line and from the git
    /// configuration as `reader` has it. The reader is asked for a key only
    /// where the command line leaves the matter open; what it answers is
    /// read and combined with the command line.
    pub fn from_cli<R: GitConfigReader>(cli_args: CliArgs, reader: &R) -> (r: Result<
        AppConfig,
        ConfigError,
    >)
        ensures
            exists|
                enabled: Result<Option<String>, GitError>,
                patterns: Result<Option<String>, GitError>,
                downstream: Result<Option<String>, GitError>,
            |
                {
                    &&& cli_args.vcs || cli_args.no_vcs || call_ensures(
                        R::get_config,
                        (reader, VCS_ENABLED_KEY),
                        enabled,
                    )
                    &&& cli_args.vcs_pattern is Some || call_ensures(
                        R::get_config,
                        (reader, VCS_PATTERNS_KEY),
                        patterns,
                    )
                    &&& cli_args.downstream is Some || call_ensures(
                        R::get_config,
                        (reader, DOWNSTREAM_KEY),
                        downstream,
                    )
                    &&& Self::is_choice(
                        r,
                        cli_args,
                        enabled_reading(answer_view(enabled)),
                        patterns_setting(answer_view(patterns)),
                        downstream_setting(answer_view(downstream)),
                    )
                },
    {
        let enabled = if cli_args.vcs || cli_args.no_vcs {
            Ok(None)
        } else {
            reader.get_config(VCS_ENABLED_KEY)
        };
        let patterns = if cli_args.vcs_pattern.is_some() {
            Ok(None)
        } else {
            reader.get_config(VCS_PATTERNS_KEY)
        };
        let downstream = if cli_args.downstream.is_some() {
            Ok(None)
        } else {
            reader.get_config(DOWNSTREAM_KEY)
        };
        let r = Self::from_sources(
            cli_args,
            GitConfig::get_vcs_ignore_enabled(enabled),
            GitConfig::get_vcs_ignore_patterns(patterns),
            GitConfig::get_downstream_filter(downstream),
        );
        assert(Self::is_choice(
            r,
            cli_args,
            enabled_reading(answer_view(enabled)),
            patterns_setting(answer_view(patterns)),
            downstream_setting(answer_view(downstream)),
        ));
        r
    }

    /// Whether version-control filtering is on.
    pub fn resolve_vcs_enabled(cli_args: &CliArgs, git: Result<Option<bool>, ConfigError>) -> (r:
        Result<bool, ConfigError>)
        ensures
            outcome_view(r) == enabled_choice(cli_args.vcs, cli_args.no_vcs, outcome_view(git)),
    {
        if cli_args.vcs {
            Ok(true)
        } else if cli_args.no_vcs {
            Ok(false)
        } else {
            match git {
                Ok(Some(enabled)) => Ok(enabled),
                Ok(None) => Ok(true),
                Err(e) => Err(e),
            }
        }
    }

    /// The version-control patterns.
    pub fn resolve_vcs_patterns(
        cli_args: &CliArgs,
        git: Result<Option<Vec<String>>, ConfigError>,
    ) -> (r: Result<Vec<String>, ConfigError>)
        ensures
            patterns_view(r) == patterns_choice(
                opt_text(cli_args.vcs_pattern),
                opt_patterns_view(git),
            ),
    {
        match &cli_args.vcs_pattern {
            Some(value) => Self::parse_cli_vcs_patterns(value.as_str()),
            None => match git {
                Ok(Some(patterns)) => Ok(patterns),
                Ok(None) => Ok(ConfigBuilder::default_vcs_patterns()),
                Err(e) => Err(e),
            },
        }
    }

    /// The downstream command.
    pub fn resolve_downstream_filter(
        cli: Option<String>,
        git: Result<Option<String>, ConfigError>,
    ) -> (r: Result<Option<String>, ConfigError>)
        ensures
            opt_text_view(r) == downstream_choice(opt_text(cli), opt_text_view(git)),
    {
        match cli {
            Some(command) => Ok(Some(command)),
            None => git,
        }
    }

    /// Reads the version-control patterns of the command line.
    pub fn parse_cli_vcs_patterns(patterns_str: &str) -> (r: Result<Vec<String>, ConfigError>)
        ensures
            patterns_view(r) == cli_patterns_reading(patterns_str@),
    {
        let patterns = patterns_of(patterns_str);
        if patterns.len() == 0 {
            Err(
                ConfigError::InvalidCliArgument {
                    argument: "--vcs-pattern".to_owned(),
                    value: patterns_str.to_owned(),
                    expected: "comma-separated list of non-empty patterns".to_owned(),
                },
            )
        } else {
            Ok(patterns)
        }
    }

    /// Whether version-control filtering is on.
    pub fn vcs_enabled(&self) -> (r: bool)
        ensures
            r == self.enabled(),
    {
        self.vcs_enabled
    }

    /// The version-control patterns.
    pub fn vcs_patterns(&self) -> (r: &[String])
        ensures
            texts(r@) == self.patterns(),
    {
        self.vcs_patterns.as_slice()
    }

    /// The downstream command, if there is one.
    pub fn downstream_filter(&self) -> (r: Option<&str>)
        ensures
            match r {
                Some(command) => self.downstream() == Some(command@),
                None => self.downstream() is None,
            },
    {
        match &self.downstream_filter {
            Some(command) => Some(command.as_str()),
            None => None,
        }
    }
}

} // verus!
