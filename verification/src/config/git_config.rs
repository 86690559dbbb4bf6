//! The git configuration keys of the filter and the reading of their values.

use crate::config::git_reader::{answer_view, GitConfigReader, GitError, GitErrorView};
use crate::text::{
    ascii_lowered, chars_eq, chars_of, decimal, decimal_of, rows, split, split_on, string_of,
    texts, to_ascii_lower, trim, trimmed,
};
use vstd::prelude::*;
use vstd::string::StringExecFns;

verus! {

/// What can go wrong while the configuration is established.
#[derive(Debug, Clone, PartialEq, Eq)]
pub enum ConfigError {
    /// The git command ran and failed.
    GitCommandFailed { command: String, exit_code: i32, stderr: String },
    /// A git configuration key holds a value that cannot be read.
    InvalidGitConfig { key: String, value: String, expected: String },
    /// The directory is not inside a git repository.
    NotInGitRepository { path: String },
    /// A read failed while the configuration was established.
    IoError { source: String },
    /// A command-line argument holds a value that cannot be read.
    InvalidCliArgument { argument: String, value: String, expected: String },
}

impl ConfigError {
    /// The error in words.
    pub open spec fn message_text(self) -> Seq<char> {
        match self {
            ConfigError::GitCommandFailed { command, exit_code, stderr } => "Git command '"@
                + command@ + "' failed with exit code "@ + decimal(exit_code as int) + ": "@
                + stderr@,
            ConfigError::InvalidGitConfig { key, value, expected } => "Invalid git config value: "@
                + key@ + "='"@ + value@ + "' (expected: "@ + expected@ + ")"@,
            ConfigError::NotInGitRepository { path } => "Not in a git repository: "@ + path@,
            ConfigError::IoError { source } => "IO error during configuration: "@ + source@,
            ConfigError::InvalidCliArgument { argument, value, expected } =>
                "Invalid CLI argument: "@ + argument@ + "='"@ + value@ + "' (expected: "@
                    + expected@ + ")"@,
        }
    }

    /// The error in words.
    pub fn message(&self) -> (r: String)
        ensures
            r@ == self.message_text(),
    {
        match self {
            ConfigError::GitCommandFailed { command, exit_code, stderr } => {
                let mut text = "Git command '".to_owned();
                text.append(command.as_str());
                text.append("' failed with exit code ");
                let code = decimal_of(*exit_code);
                text.append(string_of(code.as_slice()).as_str());
                text.append(": ");
                text.append(stderr.as_str());
                text
            },
            ConfigError::InvalidGitConfig { key, value, expected } => {
                let mut text = "Invalid git config value: ".to_owned();
                text.append(key.as_str());
                text.append("='");
                text.append(value.as_str());
                text.append("' (expected: ");
                text.append(expected.as_str());
                text.append(")");
                text
            },
            ConfigError::NotInGitRepository { path } => {
                let mut text = "Not in a git repository: ".to_owned();
                text.append(path.as_str());
                text
            },
            ConfigError::IoError { source } => {
                let mut text = "IO error during configuration: ".to_owned();
                text.append(source.as_str());
                text
            },
            ConfigError::InvalidCliArgument { argument, value, expected } => {
                let mut text = "Invalid CLI argument: ".to_owned();
                text.append(argument.as_str());
                text.append("='");
                text.append(value.as_str());
                text.append("' (expected: ");
                text.append(expected.as_str());
                text.append(")");
                text
            },
        }
    }
}

/// What a `ConfigError` holds.
pub enum ConfigErrorView {
    GitCommandFailed { command: Seq<char>, exit_code: i32, stderr: Seq<char> },
    InvalidGitConfig { key: Seq<char>, value: Seq<char>, expected: Seq<char> },
    NotInGitRepository { path: Seq<char> },
    IoError { source: Seq<char> },
    InvalidCliArgument { argument: Seq<char>, value: Seq<char>, expected: Seq<char> },
}

impl View for ConfigError {
    type V = ConfigErrorView;

    open spec fn view(&self) -> ConfigErrorView {
        match self {
            ConfigError::GitCommandFailed { command, exit_code, stderr } =>
                ConfigErrorView::GitCommandFailed {
                    command: command@,
                    exit_code: *exit_code,
                    stderr: stderr@,
                },
            ConfigError::InvalidGitConfig { key, value, expected } =>
                ConfigErrorView::InvalidGitConfig {
                    key: key@,
                    value: value@,
                    expected: expected@,
                },
            ConfigError::NotInGitRepository { path } => ConfigErrorView::NotInGitRepository {
                path: path@,
            },
            ConfigError::IoError { source } => ConfigErrorView::IoError { source: source@ },
            ConfigError::InvalidCliArgument { argument, value, expected } =>
                ConfigErrorView::InvalidCliArgument {
                    argument: argument@,
                    value: value@,
                    expected: expected@,
                },
        }
    }
}

/// The configuration error that stands for a git error.
pub open spec fn config_error_of(e: GitErrorView) -> ConfigErrorView {
    match e {
        GitErrorView::CommandFailed { command, exit_code, stderr } =>
            ConfigErrorView::GitCommandFailed { command, exit_code, stderr },
        GitErrorView::IoError { command, error } => ConfigErrorView::IoError {
            source: "Git command '"@ + command + "' failed: "@ + error,
        },
        GitErrorView::NotInGitRepository { path } => ConfigErrorView::NotInGitRepository { path },
    }
}

impl ConfigError {
    /// The kind of the error in a few words, as it is reported to the user.
    pub fn category(&self) -> (r: &'static str)
        ensures
            r@ == match self {
                ConfigError::GitCommandFailed { .. } => "Git command failed"@,
                ConfigError::InvalidGitConfig { .. } => "Invalid git config"@,
                ConfigError::NotInGitRepository { .. } => "Not in git repository"@,
                ConfigError::IoError { .. } => "Configuration error"@,
                ConfigError::InvalidCliArgument { .. } => "Invalid CLI argument"@,
            },
    {
        match self {
            ConfigError::GitCommandFailed { .. } => "Git command failed",
            ConfigError::InvalidGitConfig { .. } => "Invalid git config",
            ConfigError::NotInGitRepository { .. } => "Not in git repository",
            ConfigError::IoError { .. } => "Configuration error",
            ConfigError::InvalidCliArgument { .. } => "Invalid CLI argument",
        }
    }

    /// The configuration error that stands for a git error.
    pub fn from_git(error: GitError) -> (r: ConfigError)
        ensures
            r@ == config_error_of(error@),
    {
        match error {
            GitError::CommandFailed { command, exit_code, stderr } => ConfigError::GitCommandFailed {
                command,
                exit_code,
                stderr,
            },
            GitError::IoError { command, error } => {
                let mut source = "Git command '".to_owned();
                source.append(command.as_str());
                source.append("' failed: ");
                source.append(error.as_str());
                ConfigError::IoError { source }
            },
            GitError::NotInGitRepository { path } => ConfigError::NotInGitRepository { path },
        }
    }
}

impl From<GitError> for ConfigError {
    fn from(error: GitError) -> (r: ConfigError)
        ensures
            r@ == config_error_of(error@),
    {
        ConfigError::from_git(error)
    }
}

/// The conversion builds a new text: what it gives is stated on `from`
/// itself, over the views.
impl vstd::std_specs::convert::FromSpecImpl<GitError> for ConfigError {
    open spec fn obeys_from_spec() -> bool {
        false
    }

    open spec fn from_spec(error: GitError) -> ConfigError {
        arbitrary()
    }
}

/// The key that switches version-control filtering on or off.
pub const VCS_ENABLED_KEY: &'static str = "diff-gitignore-filter.vcs-ignore.enabled";

/// The key that holds the version-control patterns.
pub const VCS_PATTERNS_KEY: &'static str = "diff-gitignore-filter.vcs-ignore.patterns";

/// The key that holds the default downstream command.
pub const DOWNSTREAM_KEY: &'static str = "gitignore-diff.downstream-filter";

/// The truth value that a text stands for, whatever the case of its letters:
/// `true`, `1`, `yes`, `on` for true; `false`, `0`, `no`, `off` for false.
pub open spec fn bool_value(value: Seq<char>) -> Option<bool> {
    let low = ascii_lowered(value);
    if low == "true"@ || low == "1"@ || low == "yes"@ || low == "on"@ {
        Some(true)
    } else if low == "false"@ || low == "0"@ || low == "no"@ || low == "off"@ {
        Some(false)
    } else {
        None
    }
}

/// The first `n` items, each without the white space around it, the empty
/// ones left out.
pub open spec fn cleaned(items: Seq<Seq<char>>, n: int) -> Seq<Seq<char>>
    decreases n,
{
    if n <= 0 || n > items.len() {
        Seq::empty()
    } else if trimmed(items[n - 1]).len() == 0 {
        cleaned(items, n - 1)
    } else {
        cleaned(items, n - 1).push(trimmed(items[n - 1]))
    }
}

/// The patterns of a comma-separated list.
pub open spec fn pattern_list(value: Seq<char>) -> Seq<Seq<char>> {
    cleaned(split_on(value, ','), split_on(value, ',').len() as int)
}

/// What a result that holds an error of the configuration holds.
pub open spec fn outcome_view<T>(r: Result<T, ConfigError>) -> Result<T, ConfigErrorView> {
    match r {
        Ok(v) => Ok(v),
        Err(e) => Err(e@),
    }
}

/// What a result that holds a list of patterns holds.
pub open spec fn patterns_view(r: Result<Vec<String>, ConfigError>) -> Result<
    Seq<Seq<char>>,
    ConfigErrorView,
> {
    match r {
        Ok(v) => Ok(texts(v@)),
        Err(e) => Err(e@),
    }
}

/// What a result that may hold a list of patterns holds.
pub open spec fn opt_patterns_view(r: Result<Option<Vec<String>>, ConfigError>) -> Result<
    Option<Seq<Seq<char>>>,
    ConfigErrorView,
> {
    match r {
        Ok(Some(v)) => Ok(Some(texts(v@))),
        Ok(None) => Ok(None),
        Err(e) => Err(e@),
    }
}

/// What a result that may hold a text holds.
pub open spec fn opt_text_view(r: Result<Option<String>, ConfigError>) -> Result<
    Option<Seq<char>>,
    ConfigErrorView,
> {
    match r {
        Ok(Some(v)) => Ok(Some(v@)),
        Ok(None) => Ok(None),
        Err(e) => Err(e@),
    }
}

/// The reading of a truth value under `key`.
pub open spec fn boolean_reading(value: Seq<char>, key: Seq<char>) -> Result<
    bool,
    ConfigErrorView,
> {
    match bool_value(value) {
        Some(b) => Ok(b),
        None => Err(
            ConfigErrorView::InvalidGitConfig {
                key,
                value,
                expected: "true, false, 1, 0, yes, no, on, or off"@,
            },
        ),
    }
}

/// The reading of a list of patterns under `key`: a list without a pattern
/// is refused.
pub open spec fn patterns_reading(value: Seq<char>, key: Seq<char>) -> Result<
    Seq<Seq<char>>,
    ConfigErrorView,
> {
    if pattern_list(value).len() == 0 {
        Err(
            ConfigErrorView::InvalidGitConfig {
                key,
                value,
                expected: "comma-separated list of non-empty patterns"@,
            },
        )
    } else {
        Ok(pattern_list(value))
    }
}

/// What the switch of version-control filtering is, given what the reader
/// answered for its key.
pub open spec fn enabled_reading(raw: Result<Option<Seq<char>>, GitErrorView>) -> Result<
    Option<bool>,
    ConfigErrorView,
> {
    match raw {
        Ok(None) => Ok(None),
        Ok(Some(v)) => match boolean_reading(v, VCS_ENABLED_KEY@) {
            Ok(b) => Ok(Some(b)),
            Err(e) => Err(e),
        },
        Err(e) => Err(config_error_of(e)),
    }
}

/// What the version-control patterns are, given what the reader answered
/// for their key.
pub open spec fn patterns_setting(raw: Result<Option<Seq<char>>, GitErrorView>) -> Result<
    Option<Seq<Seq<char>>>,
    ConfigErrorView,
> {
    match raw {
        Ok(None) => Ok(None),
        Ok(Some(v)) => match patterns_reading(v, VCS_PATTERNS_KEY@) {
            Ok(p) => Ok(Some(p)),
            Err(e) => Err(e),
        },
        Err(e) => Err(config_error_of(e)),
    }
}

/// What the default downstream command is, given what the reader answered
/// for its key: a blank value counts as not set.
pub open spec fn downstream_setting(raw: Result<Option<Seq<char>>, GitErrorView>) -> Result<
    Option<Seq<char>>,
    ConfigErrorView,
> {
    match raw {
        Ok(None) => Ok(None),
        Ok(Some(v)) => if trimmed(v).len() == 0 {
            Ok(None)
        } else {
            Ok(Some(trimmed(v)))
        },
        Err(e) => Err(config_error_of(e)),
    }
}

/// The patterns of a comma-separated list.
pub fn patterns_of(value: &str) -> (out: Vec<String>)
    ensures
        texts(out@) == pattern_list(value@),
{
    let chars = chars_of(value);
    let items = split(chars.as_slice(), ',');
    let mut out: Vec<String> = Vec::new();
    let mut i: usize = 0;
    assert(texts(out@) =~= cleaned(rows(items@), 0));
    while i < items.len()
        invariant
            i <= items.len(),
            texts(out@) == cleaned(rows(items@), i as int),
        decreases items.len() - i,
    {
        let ghost before = texts(out@);
        let item = trim(items[i].as_slice());
        if item.len() > 0 {
            let text = string_of(item.as_slice());
            out.push(text);
            assert(texts(out@) =~= before.push(item@));
        }
        i += 1;
    }
    out
}

/// Git configuration values of the filter.
pub struct GitConfig;

impl GitConfig {
    /// Reads a truth value of the git configuration.
    pub fn parse_boolean_value(value: &str, key: &str) -> (r: Result<bool, ConfigError>)
        ensures
            outcome_view(r) == boolean_reading(value@, key@),
    {
        let chars = chars_of(value);
        let low = to_ascii_lower(chars.as_slice());
        let t1 = chars_of("true");
        let t2 = chars_of("1");
        let t3 = chars_of("yes");
        let t4 = chars_of("on");
        let f1 = chars_of("false");
        let f2 = chars_of("0");
        let f3 = chars_of("no");
        let f4 = chars_of("off");
        if chars_eq(low.as_slice(), t1.as_slice()) || chars_eq(low.as_slice(), t2.as_slice())
            || chars_eq(low.as_slice(), t3.as_slice()) || chars_eq(low.as_slice(), t4.as_slice()) {
            Ok(true)
        } else if chars_eq(low.as_slice(), f1.as_slice()) || chars_eq(
            low.as_slice(),
            f2.as_slice(),
        ) || chars_eq(low.as_slice(), f3.as_slice()) || chars_eq(low.as_slice(), f4.as_slice()) {
            Ok(false)
        } else {
            Err(
                ConfigError::InvalidGitConfig {
                    key: key.to_owned(),
                    value: value.to_owned(),
                    expected: "true, false, 1, 0, yes, no, on, or off".to_owned(),
                },
            )
        }
    }

    /// Reads a comma-separated list of patterns of the git configuration.
    pub fn parse_comma_separated_patterns(value: &str, key: &str) -> (r: Result<
        Vec<String>,
        ConfigError,
    >)
        ensures
            patterns_view(r) == patterns_reading(value@, key@),
    {
        let patterns = patterns_of(value);
        if patterns.len() == 0 {
            Err(
                ConfigError::InvalidGitConfig {
                    key: key.to_owned(),
                    value: value.to_owned(),
                    expected: "comma-separated list of non-empty patterns".to_owned(),
                },
            )
        } else {
            Ok(patterns)
        }
    }

    /// Reads a downstream command of the git configuration: a blank value
    /// counts as not set.
    pub fn parse_downstream_filter(value: String) -> (r: Option<String>)
        ensures
            match r {
                Some(v) => v@ == trimmed(value@) && v@.len() > 0,
                None => trimmed(value@).len() == 0,
            },
    {
        let chars = chars_of(value.as_str());
        let t = trim(chars.as_slice());
        if t.len() == 0 {
            None
        } else {
            Some(string_of(t.as_slice()))
        }
    }

    /// Whether version-control filtering is switched on, given what a reader
    /// answered for the key of the switch. A value that is no truth value is
    /// an error, and so is the reader's failure.
    pub fn get_vcs_ignore_enabled(raw: Result<Option<String>, GitError>) -> (r: Result<
        Option<bool>,
        ConfigError,
    >)
        ensures
            outcome_view(r) == enabled_reading(answer_view(raw)),
    {
        match raw {
            Ok(None) => Ok(None),
            Ok(Some(value)) => match Self::parse_boolean_value(value.as_str(), VCS_ENABLED_KEY) {
                Ok(b) => Ok(Some(b)),
                Err(e) => Err(e),
            },
            Err(e) => Err(ConfigError::from_git(e)),
        }
    }

    /// The version-control patterns, given what a reader answered for their
    /// key. A list without a pattern is an error, and so is the reader's
    /// failure.
    pub fn get_vcs_ignore_patterns(raw: Result<Option<String>, GitError>) -> (r: Result<
        Option<Vec<String>>,
        ConfigError,
    >)
        ensures
            opt_patterns_view(r) == patterns_setting(answer_view(raw)),
    {
        match raw {
            Ok(None) => Ok(None),
            Ok(Some(value)) => match Self::parse_comma_separated_patterns(
                value.as_str(),
                VCS_PATTERNS_KEY,
            ) {
                Ok(p) => Ok(Some(p)),
                Err(e) => Err(e),
            },
            Err(e) => Err(ConfigError::from_git(e)),
        }
    }

    /// The default downstream command, given what a reader answered for its
    /// key. The reader's failure is an error.
    pub fn get_downstream_filter(raw: Result<Option<String>, GitError>) -> (r: Result<
        Option<String>,
        ConfigError,
    >)
        ensures
            opt_text_view(r) == downstream_setting(answer_view(raw)),
    {
        match raw {
            Ok(None) => Ok(None),
            Ok(Some(value)) => Ok(Self::parse_downstream_filter(value)),
            Err(e) => Err(ConfigError::from_git(e)),
        }
    }

    /// Whether version-control filtering is switched on, as `reader` has it.
    pub fn get_vcs_ignore_enabled_with_reader<R: GitConfigReader>(reader: &R) -> (r: Result<
        Option<bool>,
        ConfigError,
    >)
        ensures
            exists|raw: Result<Option<String>, GitError>|
                call_ensures(R::get_config, (reader, VCS_ENABLED_KEY), raw) && outcome_view(r)
                    == enabled_reading(answer_view(raw)),
    {
        Self::get_vcs_ignore_enabled(reader.get_config(VCS_ENABLED_KEY))
    }

    /// The version-control patterns, as `reader` has them.
    pub fn get_vcs_ignore_patterns_with_reader<R: GitConfigReader>(reader: &R) -> (r: Result<
        Option<Vec<String>>,
        ConfigError,
    >)
        ensures
            exists|raw: Result<Option<String>, GitError>|
                call_ensures(R::get_config, (reader, VCS_PATTERNS_KEY), raw) && opt_patterns_view(
                    r,
                ) == patterns_setting(answer_view(raw)),
    {
        Self::get_vcs_ignore_patterns(reader.get_config(VCS_PATTERNS_KEY))
    }

    /// The default downstream command, as `reader` has it.
    pub fn get_downstream_filter_with_reader<R: GitConfigReader>(reader: &R) -> (r: Result<
        Option<String>,
        ConfigError,
    >)
        ensures
            exists|raw: Result<Option<String>, GitError>|
                call_ensures(R::get_config, (reader, DOWNSTREAM_KEY), raw) && opt_text_view(r)
                    == downstream_setting(answer_view(raw)),
    {
        Self::get_downstream_filter(reader.get_config(DOWNSTREAM_KEY))
    }
}

} // verus!
