//! When a synchronous read may block on asynchronous work.
//!
//! Blocking is sound outside any runtime and inside a multi-thread one, after handing the worker
//! over. Inside a current-thread runtime it would panic, so the read fails instead; and whatever
//! panic is left is turned into an error too.

use vstd::prelude::*;

use crate::error::{ChainSourceError, ChainSourceErrorView};

verus! {

/// What a read reports when it is made inside a current-thread runtime.
pub const CURRENT_THREAD_MSG: &'static str = "chia-peer ChainSource facade requires a multi-thread tokio runtime; it was invoked from a current-thread runtime. Build the provider on a multi-thread runtime, or wrap the call in tokio::task::spawn_blocking.";

/// What a read reports when blocking panicked.
pub const PANIC_MSG: &'static str = "chia-peer ChainSource facade caught a panic while blocking on the async runtime";

/// The runtime that a synchronous read is made in.
#[derive(Debug, Clone, Copy, PartialEq, Eq, Structural)]
pub enum AmbientRuntime {
    /// None.
    Outside,
    /// One that runs everything on the calling thread.
    CurrentThread,
    /// One with worker threads.
    MultiThread,
}

/// How to block.
#[derive(Debug, Clone, Copy, PartialEq, Eq, Structural)]
pub enum Blocking {
    /// At once.
    Direct,
    /// After handing the calling worker over, so that its tasks go on.
    InPlace,
}

/// How a read made in `ambient` may block, or the report that it may not.
pub fn plan_blocking(ambient: AmbientRuntime) -> (plan: Result<Blocking, ChainSourceError>)
    ensures
        match ambient {
            AmbientRuntime::Outside => plan == Ok::<Blocking, ChainSourceError>(Blocking::Direct),
            AmbientRuntime::MultiThread => plan == Ok::<Blocking, ChainSourceError>(
                Blocking::InPlace,
            ),
            AmbientRuntime::CurrentThread => plan is Err && plan->Err_0@
                == ChainSourceErrorView::Transport(CURRENT_THREAD_MSG@),
        },
{
    match ambient {
        AmbientRuntime::Outside => Ok(Blocking::Direct),
        AmbientRuntime::MultiThread => Ok(Blocking::InPlace),
        AmbientRuntime::CurrentThread => Err(
            ChainSourceError::Transport(CURRENT_THREAD_MSG.to_string()),
        ),
    }
}

/// What blocking came to: its value, or an error if it panicked.
pub fn guard_panics<T>(finished: Option<T>) -> (outcome: Result<T, ChainSourceError>)
    ensures
        match finished {
            Some(value) => outcome == Ok::<T, ChainSourceError>(value),
            None => outcome is Err && outcome->Err_0@ == ChainSourceErrorView::Transport(PANIC_MSG@),
        },
{
    match finished {
        Some(value) => Ok(value),
        None => Err(ChainSourceError::Transport(PANIC_MSG.to_string())),
    }
}

/// What a read reports where it may not block, and where blocking panicked.
pub proof fn law_what_is_reported_when_blocking_fails()
    ensures
        CURRENT_THREAD_MSG@
            == "chia-peer ChainSource facade requires a multi-thread tokio runtime; it was invoked from a current-thread runtime. Build the provider on a multi-thread runtime, or wrap the call in tokio::task::spawn_blocking."@,
        PANIC_MSG@
            == "chia-peer ChainSource facade caught a panic while blocking on the async runtime"@,
{
}

} // verus!
