//! The crate's error type: message errors with the text the user sees, the
//! structured trash-recovery error, and context wrapping.

use vstd::prelude::*;

verus! {

/// An error of the library; [`Error::message`] renders it.
#[derive(Debug)]
pub enum Error {
    /// An I/O failure, carrying its rendered text.
    Io(String),
    /// A message error.
    Msg(String),
    /// Trash metadata finalization and rollback both failed; the data can be
    /// recovered from `recovery`.
    TrashRecovery { original: String, recovery: String, metadata: String, rollback: String },
    /// `context: source`, keeping the wrapped error reachable.
    WithContext { context: String, source: Box<Error> },
}

/// The text an error renders as.
pub open spec fn message_of(e: Error) -> Seq<char>
    decreases e,
{
    match e {
        Error::Io(s) => s@,
        Error::Msg(s) => s@,
        Error::TrashRecovery { original, recovery, metadata, rollback } => "trash metadata failed for "@
            + original@ + "; rollback failed; recover data from "@ + recovery@ + ": metadata: "@
            + metadata@ + "; rollback: "@ + rollback@,
        Error::WithContext { context, source } => context@ + ": "@ + message_of(*source),
    }
}

impl Error {
    /// Wraps `self` under `context`: the text reads `context: error`.
    pub fn with_context(self, context: String) -> (e: Error)
        ensures
            e == (Error::WithContext { context, source: Box::new(self) }),
            message_of(e) == context@ + ": "@ + message_of(self),
    {
        Error::WithContext { context, source: Box::new(self) }
    }

    /// The rendered text of the error.
    pub fn message(&self) -> (s: String)
        ensures
            s@ == message_of(*self),
        decreases self,
    {
        match self {
            Error::Io(m) => m.clone(),
            Error::Msg(m) => m.clone(),
            Error::TrashRecovery { original, recovery, metadata, rollback } => {
                let mut s = String::from_str("trash metadata failed for ");
                s.append(original.as_str());
                s.append("; rollback failed; recover data from ");
                s.append(recovery.as_str());
                s.append(": metadata: ");
                s.append(metadata.as_str());
                s.append("; rollback: ");
                s.append(rollback.as_str());
                s
            },
            Error::WithContext { context, source } => {
                let inner = source.message();
                let mut s = context.clone();
                s.append(": ");
                s.append(inner.as_str());
                s
            },
        }
    }
}

/// A failed result carrying a message error.
pub fn msg<T>(m: String) -> (r: Result<T, Error>)
    ensures
        r == Err::<T, Error>(Error::Msg(m)),
{
    Err(Error::Msg(m))
}

} // verus!
