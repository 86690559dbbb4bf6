//! Reading git configuration values: the reader interface, a reader backed
//! by a table, and the reading of what the git command printed.

use crate::text::{
    chars_eq, chars_of, decimal, decimal_of, decode_lossy, lossy_text, string_of, trim, trimmed,
};
use vstd::prelude::*;
use vstd::string::StringExecFns;

verus! {

/// What can go wrong when git is asked for a configuration value.
#[derive(Debug, Clone, PartialEq, Eq)]
pub enum GitError {
    /// The git command ran and failed.
    CommandFailed { command: String, exit_code: i32, stderr: String },
    /// The git command could not be run.
    IoError { command: String, error: String },
    /// The directory is not inside a git repository.
    NotInGitRepository { path: String },
}

/// What a `GitError` holds.
pub enum GitErrorView {
    CommandFailed { command: Seq<char>, exit_code: i32, stderr: Seq<char> },
    IoError { command: Seq<char>, error: Seq<char> },
    NotInGitRepository { path: Seq<char> },
}

impl View for GitError {
    type V = GitErrorView;

    open spec fn view(&self) -> GitErrorView {
        match self {
            GitError::CommandFailed { command, exit_code, stderr } => GitErrorView::CommandFailed {
                command: command@,
                exit_code: *exit_code,
                stderr: stderr@,
            },
            GitError::IoError { command, error } => GitErrorView::IoError {
                command: command@,
                error: error@,
            },
            GitError::NotInGitRepository { path } => GitErrorView::NotInGitRepository {
                path: path@,
            },
        }
    }
}

impl GitErrorView {
    /// The error in words.
    pub open spec fn message_text(self) -> Seq<char> {
        match self {
            GitErrorView::CommandFailed { command, exit_code, stderr } => "Git command '"@
                + command + "' failed with exit code "@ + decimal(exit_code as int) + ": "@
                + stderr,
            GitErrorView::IoError { command, error } => "IO error executing git command '"@
                + command + "': "@ + error,
            GitErrorView::NotInGitRepository { path } => "Not in a git repository: "@ + path,
        }
    }
}

impl GitError {
    /// The error in words.
    pub fn message(&self) -> (r: String)
        ensures
            r@ == self@.message_text(),
    {
        match self {
            GitError::CommandFailed { command, exit_code, stderr } => {
                let mut text = "Git command '".to_owned();
                text.append(command.as_str());
                text.append("' failed with exit code ");
                let code = decimal_of(*exit_code);
                text.append(string_of(code.as_slice()).as_str());
                text.append(": ");
                text.append(stderr.as_str());
                text
            },
            GitError::IoError { command, error } => {
                let mut text = "IO error executing git command '".to_owned();
                text.append(command.as_str());
                text.append("': ");
                text.append(error.as_str());
                text
            },
            GitError::NotInGitRepository { path } => {
                let mut text = "Not in a git repository: ".to_owned();
                text.append(path.as_str());
                text
            },
        }
    }
}

/// What a reader answers, as the contracts see it.
pub open spec fn answer_view(raw: Result<Option<String>, GitError>) -> Result<
    Option<Seq<char>>,
    GitErrorView,
> {
    match raw {
        Ok(Some(v)) => Ok(Some(v@)),
        Ok(None) => Ok(None),
        Err(e) => Err(e@),
    }
}

/// A source of git configuration values.
pub trait GitConfigReader {
    /// The value of the key `key`: `Ok(None)` where the key is not set.
    fn get_config(&self, key: &str) -> Result<Option<String>, GitError>;
}

/// The reading of what the git command gave for a configuration key, from
/// the texts that it printed: the key's value where git succeeded, nothing
/// where git says the key is not set or the value is blank, and else the
/// failure.
pub open spec fn config_reading(
    exit_code: Option<i32>,
    stdout: Seq<char>,
    stderr: Seq<char>,
    key: Seq<char>,
) -> Result<Option<Seq<char>>, GitErrorView> {
    if exit_code == Some(0i32) {
        let value = trimmed(stdout);
        if value.len() == 0 {
            Ok(None)
        } else {
            Ok(Some(value))
        }
    } else if exit_code == Some(1i32) {
        Ok(None)
    } else {
        Err(
            GitErrorView::CommandFailed {
                command: "git config --get "@ + key,
                exit_code: match exit_code {
                    Some(code) => code,
                    None => -1i32,
                },
                stderr,
            },
        )
    }
}

/// The reading of what the git command gave for a configuration key, from
/// the bytes that it printed.
pub open spec fn config_output(
    exit_code: Option<i32>,
    stdout: Seq<u8>,
    stderr: Seq<u8>,
    key: Seq<char>,
) -> Result<Option<Seq<char>>, GitErrorView> {
    config_reading(exit_code, lossy_text(stdout), lossy_text(stderr), key)
}

/// The reader that asks the git command. Running the command is the
/// caller's part; what the command gave is read here.
pub struct SystemGitConfigReader;

impl SystemGitConfigReader {
    /// The failure of a directory that is not inside a git repository.
    pub fn validate_git_repository(is_repository: bool, path: &str) -> (r: Result<(), GitError>)
        ensures
            is_repository ==> r is Ok,
            !is_repository ==> (r matches Err(e) && e@ == GitErrorView::NotInGitRepository {
                path: path@,
            }),
    {
        if is_repository {
            Ok(())
        } else {
            Err(GitError::NotInGitRepository { path: path.to_owned() })
        }
    }

    /// The failure of a git command that could not be run.
    pub fn command_not_run(command: &str, detail: &str) -> (e: GitError)
        ensures
            e@ == (GitErrorView::IoError { command: command@, error: detail@ }),
    {
        GitError::IoError { command: command.to_owned(), error: detail.to_owned() }
    }

    /// Reads what `git config --get <key>` gave: its exit code, where it
    /// ended with one, and the texts that it printed.
    pub fn read_git_config_output(exit_code: Option<i32>, stdout: &str, stderr: &str, key: &str)
        -> (r: Result<Option<String>, GitError>)
        ensures
            answer_view(r) == config_reading(exit_code, stdout@, stderr@, key@),
    {
        match exit_code {
            Some(0) => {
                let chars = chars_of(stdout);
                let value = trim(chars.as_slice());
                if value.len() == 0 {
                    Ok(None)
                } else {
                    Ok(Some(string_of(value.as_slice())))
                }
            },
            Some(1) => Ok(None),
            other => {
                let mut command = "git config --get ".to_owned();
                command.append(key);
                let code: i32 = match other {
                    Some(code) => code,
                    None => -1,
                };
                Err(GitError::CommandFailed { command, exit_code: code, stderr: stderr.to_owned() })
            },
        }
    }

    /// Reads what `git config --get <key>` gave: its exit code, where it
    /// ended with one, and the bytes that it printed.
    pub fn parse_git_config_output(
        exit_code: Option<i32>,
        stdout: &[u8],
        stderr: &[u8],
        key: &str,
    ) -> (r: Result<Option<String>, GitError>)
        ensures
            answer_view(r) == config_output(exit_code, stdout@, stderr@, key@),
    {
        let out = decode_lossy(stdout);
        let err = decode_lossy(stderr);
        Self::read_git_config_output(exit_code, out.as_str(), err.as_str(), key)
    }
}

/// What a table of keys and values gives for `key`: the value that was set
/// last.
pub open spec fn lookup(entries: Seq<(Seq<char>, Seq<char>)>, key: Seq<char>) -> Option<
    Seq<char>,
>
    decreases entries.len(),
{
    if entries.len() == 0 {
        None
    } else if entries.last().0 == key {
        Some(entries.last().1)
    } else {
        lookup(entries.drop_last(), key)
    }
}

/// A reader backed by a table of keys and values.
pub struct MockGitConfigReader {
    config: Vec<(String, String)>,
}

impl MockGitConfigReader {
    /// The table, in the order in which the values were set.
    pub closed spec fn entries(&self) -> Seq<(Seq<char>, Seq<char>)> {
        Seq::new(self.config@.len(), |i: int| (self.config@[i].0@, self.config@[i].1@))
    }

    /// A reader with an empty table.
    pub fn new() -> (r: MockGitConfigReader)
        ensures
            r.entries() == Seq::<(Seq<char>, Seq<char>)>::empty(),
    {
        let r = MockGitConfigReader { config: Vec::new() };
        assert(r.entries() =~= Seq::empty());
        r
    }

    /// The reader with `key` set to `value`.
    pub fn with_config(self, key: &str, value: &str) -> (r: MockGitConfigReader)
        ensures
            r.entries() == self.entries().push((key@, value@)),
    {
        let mut config = self.config;
        config.push((key.to_owned(), value.to_owned()));
        let r = MockGitConfigReader { config };
        assert(r.entries() =~= self.entries().push((key@, value@)));
        r
    }

    /// The value of `key` in the table.
    pub fn value_of(&self, key: &str) -> (r: Option<String>)
        ensures
            match r {
                Some(v) => lookup(self.entries(), key@) == Some(v@),
                None => lookup(self.entries(), key@) is None,
            },
    {
        let wanted = chars_of(key);
        let mut i: usize = self.config.len();
        assert(self.entries().take(i as int) =~= self.entries());
        while i > 0
            invariant
                i <= self.config.len(),
                wanted@ == key@,
                lookup(self.entries(), key@) == lookup(self.entries().take(i as int), key@),
            decreases i,
        {
            let name = chars_of(self.config[i - 1].0.as_str());
            if chars_eq(name.as_slice(), wanted.as_slice()) {
                return Some(self.config[i - 1].1.clone());
            }
            assert(self.entries().take(i as int).drop_last() =~= self.entries().take(i - 1));
            i -= 1;
        }
        None
    }
}

impl Default for MockGitConfigReader {
    fn default() -> (r: MockGitConfigReader)
        ensures
            r.entries() == Seq::<(Seq<char>, Seq<char>)>::empty(),
    {
        MockGitConfigReader::new()
    }
}

impl GitConfigReader for MockGitConfigReader {
    fn get_config(&self, key: &str) -> (r: Result<Option<String>, GitError>)
        ensures
            answer_view(r) == Ok::<Option<Seq<char>>, GitErrorView>(lookup(self.entries(), key@)),
    {
        Ok(self.value_of(key))
    }
}

} // verus!
