//! The error type of the filter, and ways to combine and transform errors.

use crate::config::git_config::ConfigError;
use crate::text::{decimal, digits_of, string_of};
use vstd::prelude::*;
use vstd::string::StringExecFns;

verus! {

/// What is known of a failed read or write.
#[derive(Debug, Clone, PartialEq, Eq)]
pub struct IoFailure {
    /// The reader of a pipe has closed it.
    pub broken_pipe: bool,
    /// The failure in words.
    pub message: String,
}

/// Main error type of the filter.
#[derive(Debug)]
pub enum Error {
    /// A read or a write failed.
    Io(IoFailure),
    /// Processing failed, with a message.
    Processing(String),
    /// The configuration could not be established.
    Config(ConfigError),
    /// The downstream command could not be started.
    DownstreamSpawnFailed(String),
    /// The downstream command ended with a failure.
    DownstreamProcessFailed(String),
}

/// The texts in order, each but the first behind `"; "`, and each behind its
/// number, counted from one: `Error 1: ...; Error 2: ...`.
pub open spec fn numbered(items: Seq<Seq<char>>) -> Seq<char>
    decreases items.len(),
{
    if items.len() == 0 {
        Seq::empty()
    } else {
        let head = numbered(items.drop_last());
        let sep = if items.len() == 1 {
            Seq::<char>::empty()
        } else {
            "; "@
        };
        head + sep + "Error "@ + decimal(items.len() as int) + ": "@ + items.last()
    }
}

/// The messages of the errors.
pub open spec fn messages(errors: Seq<Error>) -> Seq<Seq<char>> {
    Seq::new(errors.len(), |i: int| errors[i].message_text())
}

/// The index of the first failure among the first `n` results, or `n`.
pub open spec fn first_failure<T>(results: Seq<Result<T, Error>>, n: int) -> int
    decreases n,
{
    if n <= 0 || n > results.len() {
        0
    } else if first_failure(results, n - 1) < n - 1 {
        first_failure(results, n - 1)
    } else if results[n - 1] is Err {
        n - 1
    } else {
        n
    }
}

impl Error {
    /// The error in words: its kind, then what it holds.
    pub open spec fn message_text(self) -> Seq<char> {
        match self {
            Error::Io(failure) => "IO error: "@ + failure.message@,
            Error::Processing(msg) => "Processing error: "@ + msg@,
            Error::Config(err) => "Configuration error: "@ + err.message_text(),
            Error::DownstreamSpawnFailed(msg) => "DownstreamSpawnFailed: "@ + msg@,
            Error::DownstreamProcessFailed(msg) => "DownstreamProcessFailed: "@ + msg@,
        }
    }

    /// Whether the error holds a message of its own.
    pub open spec fn holds_message(self) -> bool {
        self is Processing || self is DownstreamSpawnFailed || self is DownstreamProcessFailed
    }

    /// A processing error with the given message.
    pub fn processing_error(message: String) -> (e: Error)
        ensures
            e == Error::Processing(message),
    {
        Error::Processing(message)
    }

    /// Hands the error to `f` and gives what `f` makes of it.
    pub fn chain<F, T>(self, f: F) -> (r: Result<T, Error>) where
        F: FnOnce(Error) -> Result<T, Error>,

        requires
            f.requires((self,)),
        ensures
            f.ensures((self,), r),
    {
        f(self)
    }

    /// The error that `f` puts in the place of this one.
    pub fn or_else<F>(self, f: F) -> (r: Error) where F: FnOnce(Error) -> Error
        requires
            f.requires((self,)),
        ensures
            f.ensures((self,), r),
    {
        f(self)
    }

    /// The error with its message changed by `f`. An error that holds no
    /// message of its own stays as it is, and `f` is not called.
    pub fn map_context<F>(self, f: F) -> (r: Error) where F: FnOnce(String) -> String
        requires
            match self {
                Error::Processing(msg) => f.requires((msg,)),
                Error::DownstreamSpawnFailed(msg) => f.requires((msg,)),
                Error::DownstreamProcessFailed(msg) => f.requires((msg,)),
                _ => true,
            },
        ensures
            match self {
                Error::Processing(msg) => r matches Error::Processing(out) && f.ensures(
                    (msg,),
                    out,
                ),
                Error::DownstreamSpawnFailed(msg) => r matches Error::DownstreamSpawnFailed(out)
                    && f.ensures((msg,), out),
                Error::DownstreamProcessFailed(msg) => r matches Error::DownstreamProcessFailed(
                    out,
                ) && f.ensures((msg,), out),
                other => r == other,
            },
    {
        match self {
            Error::Processing(msg) => Error::Processing(f(msg)),
            Error::DownstreamSpawnFailed(msg) => Error::DownstreamSpawnFailed(f(msg)),
            Error::DownstreamProcessFailed(msg) => Error::DownstreamProcessFailed(f(msg)),
            other => other,
        }
    }

    /// One error in the place of many: the one error where there is one, and
    /// else a processing error that lists the messages of all, numbered.
    pub fn combine_errors(errors: Vec<Error>) -> (r: Error)
        ensures
            errors.len() == 0 ==> (r matches Error::Processing(m) && m@
                == "No errors to combine"@),
            errors.len() == 1 ==> r == errors@[0],
            errors.len() > 1 ==> (r matches Error::Processing(m) && m@
                == "Multiple errors occurred: "@ + numbered(messages(errors@))),
    {
        let mut errors = errors;
        if errors.len() == 0 {
            return Error::Processing("No errors to combine".to_owned());
        }
        if errors.len() == 1 {
            match errors.pop() {
                Some(only) => {
                    return only;
                },
                None => {
                    return Error::Processing("No errors to combine".to_owned());
                },
            }
        }
        let mut text = "Multiple errors occurred: ".to_owned();
        let mut i: usize = 0;
        assert(messages(errors@).take(0) =~= Seq::empty());
        assert(text@ =~= "Multiple errors occurred: "@ + numbered(messages(errors@).take(0)));
        while i < errors.len()
            invariant
                i <= errors.len(),
                text@ == "Multiple errors occurred: "@ + numbered(
                    messages(errors@).take(i as int),
                ),
            decreases errors.len() - i,
        {
            let ghost before = text@;
            if i > 0 {
                text.append("; ");
            }
            text.append("Error ");
            let number = digits_of((i as u64) + 1);
            text.append(string_of(number.as_slice()).as_str());
            text.append(": ");
            text.append(errors[i].message().as_str());
            i += 1;
            proof {
                let items = messages(errors@).take(i as int);
                assert(items.drop_last() =~= messages(errors@).take(i - 1));
                assert(text@ =~= "Multiple errors occurred: "@ + numbered(items));
            }
        }
        assert(messages(errors@).take(errors.len() as int) =~= messages(errors@));
        Error::Processing(text)
    }

    /// The values of the results where all succeeded, in order; else the first
    /// error.
    pub fn collect_errors<T>(results: Vec<Result<T, Error>>) -> (r: Result<Vec<T>, Error>)
        ensures
            match r {
                Ok(values) => {
                    &&& values.len() == results.len()
                    &&& forall|i: int|
                        0 <= i < results.len() ==> results@[i] == Ok::<T, Error>(values@[i])
                },
                Err(e) => {
                    let k = first_failure(results@, results.len() as int);
                    k < results.len() && results@[k] == Err::<T, Error>(e)
                },
            },
    {
        let mut values: Vec<T> = Vec::new();
        let ghost all = results@;
        for item in it: results
            invariant
                it.seq() == all,
                values.len() == it.index(),
                first_failure(all, it.index()) == it.index(),
                forall|i: int| 0 <= i < it.index() ==> all[i] == Ok::<T, Error>(values@[i]),
        {
            match item {
                Ok(value) => {
                    values.push(value);
                },
                Err(e) => {
                    proof {
                        lemma_first_failure_stays(all, it.index() + 1, all.len() as int);
                    }
                    return Err(e);
                },
            }
        }
        Ok(values)
    }

    /// The first error among the results, if there is one.
    pub fn first_error<T>(results: Vec<Result<T, Error>>) -> (r: Option<Error>)
        ensures
            match r {
                Some(e) => {
                    let k = first_failure(results@, results.len() as int);
                    k < results.len() && results@[k] == Err::<T, Error>(e)
                },
                None => forall|i: int| 0 <= i < results.len() ==> results@[i] is Ok,
            },
    {
        let ghost all = results@;
        for item in it: results
            invariant
                it.seq() == all,
                first_failure(all, it.index()) == it.index(),
                forall|i: int| 0 <= i < it.index() ==> all[i] is Ok,
        {
            match item {
                Ok(_) => {},
                Err(e) => {
                    proof {
                        lemma_first_failure_stays(all, it.index() + 1, all.len() as int);
                    }
                    return Some(e);
                },
            }
        }
        None
    }

    /// The error in words.
    pub fn message(&self) -> (r: String)
        ensures
            r@ == self.message_text(),
    {
        match self {
            Error::Io(failure) => {
                let mut text = "IO error: ".to_owned();
                text.append(failure.message.as_str());
                text
            },
            Error::Processing(msg) => {
                let mut text = "Processing error: ".to_owned();
                text.append(msg.as_str());
                text
            },
            Error::Config(err) => {
                let mut text = "Configuration error: ".to_owned();
                text.append(err.message().as_str());
                text
            },
            Error::DownstreamSpawnFailed(msg) => {
                let mut text = "DownstreamSpawnFailed: ".to_owned();
                text.append(msg.as_str());
                text
            },
            Error::DownstreamProcessFailed(msg) => {
                let mut text = "DownstreamProcessFailed: ".to_owned();
                text.append(msg.as_str());
                text
            },
        }
    }

    /// Whether the error wraps another error, which is its source: a failed
    /// read or write, or a configuration error.
    pub fn has_source(&self) -> (r: bool)
        ensures
            r == (self is Io || self is Config),
    {
        match self {
            Error::Io(_) => true,
            Error::Config(_) => true,
            _ => false,
        }
    }
}

/// Once a failure is found among the first `n` results, it stays the first
/// among more.
pub proof fn lemma_first_failure_stays<T>(results: Seq<Result<T, Error>>, n: int, m: int)
    requires
        0 < n <= m <= results.len(),
        first_failure(results, n) < n,
    ensures
        first_failure(results, m) == first_failure(results, n),
    decreases m - n,
{
    if n < m {
        lemma_first_failure_stays(results, n, m - 1);
    }
}

impl From<IoFailure> for Error {
    fn from(err: IoFailure) -> (r: Error) {
        Error::Io(err)
    }
}

impl vstd::std_specs::convert::FromSpecImpl<IoFailure> for Error {
    open spec fn obeys_from_spec() -> bool {
        true
    }

    open spec fn from_spec(err: IoFailure) -> Error {
        Error::Io(err)
    }
}

impl From<ConfigError> for Error {
    fn from(err: ConfigError) -> (r: Error) {
        Error::Config(err)
    }
}

impl vstd::std_specs::convert::FromSpecImpl<ConfigError> for Error {
    open spec fn obeys_from_spec() -> bool {
        true
    }

    open spec fn from_spec(err: ConfigError) -> Error {
        Error::Config(err)
    }
}

/// Ways to transform the error of a result and leave its value alone.
pub trait ResultExt<T>: Sized {
    /// The result itself.
    spec fn outcome(self) -> Result<T, Error>;

    /// The result with the text of `f` and `": "` put before the message of
    /// its error. `f` is asked only where the error holds a message of its
    /// own.
    fn with_context<F>(self, f: F) -> (r: Result<T, Error>) where F: FnOnce() -> String
        requires
            self.outcome() matches Err(e) && e.holds_message() ==> f.requires(()),
        ensures
            match self.outcome() {
                Ok(v) => r == Ok::<T, Error>(v),
                Err(Error::Processing(msg)) => r matches Err(Error::Processing(out)) && exists|
                    ctx: String,
                |
                    f.ensures((), ctx) && out@ == ctx@ + ": "@ + msg@,
                Err(Error::DownstreamSpawnFailed(msg)) => r matches Err(
                    Error::DownstreamSpawnFailed(out),
                ) && exists|ctx: String| f.ensures((), ctx) && out@ == ctx@ + ": "@ + msg@,
                Err(Error::DownstreamProcessFailed(msg)) => r matches Err(
                    Error::DownstreamProcessFailed(out),
                ) && exists|ctx: String| f.ensures((), ctx) && out@ == ctx@ + ": "@ + msg@,
                Err(other) => r == Err::<T, Error>(other),
            },
    ;

    /// What `f` makes of the value; the error where there is no value.
    fn chain_error<F, U>(self, f: F) -> (r: Result<U, Error>) where
        F: FnOnce(T) -> Result<U, Error>,

        requires
            self.outcome() matches Ok(v) ==> f.requires((v,)),
        ensures
            match self.outcome() {
                Ok(v) => f.ensures((v,), r),
                Err(e) => r == Err::<U, Error>(e),
            },
    ;

    /// The result with its error changed by `f`.
    fn map_error<F>(self, f: F) -> (r: Result<T, Error>) where F: FnOnce(Error) -> Error
        requires
            self.outcome() matches Err(e) ==> f.requires((e,)),
        ensures
            match self.outcome() {
                Ok(v) => r == Ok::<T, Error>(v),
                Err(e) => r matches Err(out) && f.ensures((e,), out),
            },
    ;

    /// The result as it is, after `f` has seen its error.
    fn inspect_error<F>(self, f: F) -> (r: Result<T, Error>) where F: FnOnce(&Error)
        requires
            self.outcome() matches Err(e) ==> f.requires((&e,)),
        ensures
            r == self.outcome(),
            self.outcome() matches Err(e) ==> f.ensures((&e,), ()),
    ;
}

impl<T> ResultExt<T> for Result<T, Error> {
    open spec fn outcome(self) -> Result<T, Error> {
        self
    }

    fn with_context<F>(self, f: F) -> (r: Result<T, Error>) where F: FnOnce() -> String {
        match self {
            Ok(v) => Ok(v),
            Err(Error::Processing(msg)) => {
                let mut text = f();
                text.append(": ");
                text.append(msg.as_str());
                Err(Error::Processing(text))
            },
            Err(Error::DownstreamSpawnFailed(msg)) => {
                let mut text = f();
                text.append(": ");
                text.append(msg.as_str());
                Err(Error::DownstreamSpawnFailed(text))
            },
            Err(Error::DownstreamProcessFailed(msg)) => {
                let mut text = f();
                text.append(": ");
                text.append(msg.as_str());
                Err(Error::DownstreamProcessFailed(text))
            },
            Err(other) => Err(other),
        }
    }

    fn chain_error<F, U>(self, f: F) -> (r: Result<U, Error>) where
        F: FnOnce(T) -> Result<U, Error>,
     {
        match self {
            Ok(v) => f(v),
            Err(e) => Err(e),
        }
    }

    fn map_error<F>(self, f: F) -> (r: Result<T, Error>) where F: FnOnce(Error) -> Error {
        match self {
            Ok(v) => Ok(v),
            Err(e) => Err(f(e)),
        }
    }

    fn inspect_error<F>(self, f: F) -> (r: Result<T, Error>) where F: FnOnce(&Error) {
        match &self {
            Ok(_) => {},
            Err(e) => {
                f(e);
            },
        }
        self
    }
}

} // verus!
