//! Failures and how lasting they are.
//!
//! A failure is either ephemeral, and whatever loop encloses the work simply
//! goes on, or permanent, and the worker ends after reporting it. A failure
//! is ephemeral unless somebody says otherwise in so many words.

use vstd::prelude::*;
use crate::text::{join, joined, texts};

verus! {

/// What went wrong, and why: the failure's own words, then those of its
/// cause, of the cause's cause, and so on.
#[derive(Clone, Debug, PartialEq, Eq)]
pub struct Failure {
    pub message: String,
    pub causes: Vec<String>,
}

/// What a `Failure` holds.
pub struct FailureView {
    pub message: Seq<char>,
    pub causes: Seq<Seq<char>>,
}

impl View for Failure {
    type V = FailureView;

    open spec fn view(&self) -> FailureView {
        FailureView { message: self.message@, causes: texts(self.causes@) }
    }
}

/// A failure together with how lasting it is.
#[derive(Clone, Debug, PartialEq, Eq)]
pub enum Error {
    /// A passing failure: it is safe to go on, or to try again.
    Ephemeral(Failure),
    /// A lasting failure: the program should end.
    Permanent(Failure),
}

/// What an `Error` holds.
pub enum ErrorView {
    Ephemeral(FailureView),
    Permanent(FailureView),
}

impl View for Error {
    type V = ErrorView;

    open spec fn view(&self) -> ErrorView {
        match self {
            Error::Ephemeral(f) => ErrorView::Ephemeral(f@),
            Error::Permanent(f) => ErrorView::Permanent(f@),
        }
    }
}

/// The view of the outcome of a piece of work.
pub open spec fn outcome_view(r: Result<(), Error>) -> Result<(), ErrorView> {
    match r {
        Ok(()) => Ok(()),
        Err(e) => Err(e@),
    }
}

impl From<Failure> for Error {
    /// A failure that nobody classified is ephemeral.
    fn from(failure: Failure) -> (e: Error)
        ensures
            e == Error::Ephemeral(failure),
    {
        Error::Ephemeral(failure)
    }
}

impl vstd::std_specs::convert::FromSpecImpl<Failure> for Error {
    open spec fn obeys_from_spec() -> bool {
        true
    }

    open spec fn from_spec(failure: Failure) -> Error {
        Error::Ephemeral(failure)
    }
}

impl Error {
    /// Whether the failure is a lasting one.
    pub fn is_permanent(&self) -> (r: bool)
        ensures
            r == (self is Permanent),
    {
        match self {
            Error::Ephemeral(_) => false,
            Error::Permanent(_) => true,
        }
    }

    /// The failure itself, whatever its kind.
    pub fn failure(&self) -> (f: &Failure)
        ensures
            *f == match *self {
                Error::Ephemeral(g) => g,
                Error::Permanent(g) => g,
            },
    {
        match self {
            Error::Ephemeral(f) => f,
            Error::Permanent(f) => f,
        }
    }
}

/// The report of a failure: its message and the messages of its causes, in
/// order, with a colon and a space between neighbours.
pub open spec fn report_text(f: FailureView) -> Seq<char> {
    joined(seq![f.message] + f.causes, ": "@)
}

/// Writes the report of a failure, the whole chain of causes on one line.
pub fn report_err(f: &Failure) -> (out: String)
    ensures
        out@ == report_text(f@),
{
    let mut chain: Vec<String> = Vec::new();
    chain.push(f.message.clone());
    let mut i: usize = 0;
    while i < f.causes.len()
        invariant
            i <= f.causes.len(),
            texts(chain@) =~= seq![f.message@] + texts(f.causes@).take(i as int),
        decreases f.causes.len() - i,
    {
        let cause: String = f.causes[i].clone();
        proof {
            assert(texts(chain@.push(cause)) =~= texts(chain@).push(cause@));
        }
        chain.push(cause);
        i = i + 1;
    }
    assert(texts(f.causes@).take(f.causes@.len() as int) =~= texts(f.causes@));
    join(chain.as_slice(), ": ")
}

/// The database could not be set up.
#[derive(Clone, Debug, PartialEq, Eq)]
pub struct DatabaseSetupFailed {
    /// The path of the database.
    pub database: String,
    /// Why the set-up failed.
    pub cause: Failure,
}

impl DatabaseSetupFailed {
    /// The failure's own words.
    pub open spec fn message_text(&self) -> Seq<char> {
        "failed to configure database: "@ + self.database@
    }

    /// The failure with its chain of causes: the cause's message comes
    /// first among the causes, then the cause's own causes.
    pub fn into_failure(self) -> (f: Failure)
        ensures
            f@.message == self.message_text(),
            f@.causes == seq![self.cause@.message] + self.cause@.causes,
    {
        let mut message: String = "failed to configure database: ".to_owned();
        message.append(self.database.as_str());
        let mut causes: Vec<String> = Vec::new();
        causes.push(self.cause.message);
        let inner: Vec<String> = self.cause.causes;
        let mut i: usize = 0;
        while i < inner.len()
            invariant
                i <= inner.len(),
                inner == self.cause.causes,
                texts(causes@) =~= seq![self.cause.message@] + texts(inner@).take(i as int),
            decreases inner.len() - i,
        {
            let cause: String = inner[i].clone();
            proof {
                assert(texts(causes@.push(cause)) =~= texts(causes@).push(cause@));
            }
            causes.push(cause);
            i = i + 1;
        }
        Failure { message, causes }
    }
}

} // verus!
