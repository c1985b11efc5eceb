//! The outcome rules of the execution bridge: one unit of work runs on a
//! blocking-capable thread with one pooled connection, and what it produced
//! is handed back to the caller.
use vstd::prelude::*;

verus! {

/// A failure of the connection pool.
#[derive(Clone, Debug)]
pub enum ConnectionError {
    /// The pool could not be built for the connection target.
    PoolInitFailed(String),
    /// No connection could be taken from the pool.
    AcquireFailed(String),
}

/// Why a unit of work did not produce its value.
#[derive(Clone, Debug)]
pub enum ExecError<E> {
    /// The worker could not lease a connection.
    ConnectionUnavailable(ConnectionError),
    /// The worker ended without producing a result.
    TaskFailed,
    /// The backend reported an error while running the work.
    Backend(E),
}

/// Settles one unit of work. `joined` is `None` when the offloaded task ended
/// abnormally; otherwise it holds the lease attempt's failure or what the work
/// returned. A backend error is passed through unchanged.
pub fn settle<R, E>(joined: Option<Result<Result<R, E>, ConnectionError>>) -> (r: Result<
    R,
    ExecError<E>,
>)
    ensures
        match joined {
            None => r == Err::<R, ExecError<E>>(ExecError::TaskFailed),
            Some(Err(c)) => r == Err::<R, ExecError<E>>(ExecError::ConnectionUnavailable(c)),
            Some(Ok(Err(e))) => r == Err::<R, ExecError<E>>(ExecError::Backend(e)),
            Some(Ok(Ok(v))) => r == Ok::<R, ExecError<E>>(v),
        },
{
    match joined {
        None => Err(ExecError::TaskFailed),
        Some(Err(c)) => Err(ExecError::ConnectionUnavailable(c)),
        Some(Ok(Err(e))) => Err(ExecError::Backend(e)),
        Some(Ok(Ok(v))) => Ok(v),
    }
}

} // verus!
