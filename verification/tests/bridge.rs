use std::future::Future;

use chia_peer::bridge::{
    guard_panics, plan_blocking, AmbientRuntime, Blocking, CURRENT_THREAD_MSG, PANIC_MSG,
};
use chia_peer::ChainSourceError;
use tokio::runtime::{Builder, Handle, Runtime, RuntimeFlavor};

/// Blocks on `fut` as the plan for the ambient runtime says.
fn run_blocking<F: Future>(handle: &Handle, fut: F) -> Result<F::Output, ChainSourceError> {
    let ambient = match Handle::try_current() {
        Ok(current) if current.runtime_flavor() == RuntimeFlavor::CurrentThread => {
            AmbientRuntime::CurrentThread
        }
        Ok(_) => AmbientRuntime::MultiThread,
        Err(_) => AmbientRuntime::Outside,
    };
    let finished = match plan_blocking(ambient)? {
        Blocking::Direct => handle.block_on(fut),
        Blocking::InPlace => tokio::task::block_in_place(|| handle.block_on(fut)),
    };
    guard_panics(Some(finished))
}

fn multi_thread(workers: usize) -> Runtime {
    Builder::new_multi_thread()
        .worker_threads(workers)
        .enable_all()
        .build()
        .expect("multi-thread runtime")
}

#[test]
fn current_thread_runtime_yields_clear_error_not_panic() {
    let mt = multi_thread(1);
    let handle = mt.handle().clone();

    let ct = Builder::new_current_thread()
        .enable_all()
        .build()
        .expect("current-thread runtime");

    let result: Result<u32, ChainSourceError> =
        ct.block_on(async { run_blocking(&handle, async { 7u32 }) });

    match result {
        Err(ChainSourceError::Transport(msg)) => {
            assert!(msg.contains("multi-thread tokio runtime"), "got: {msg}");
        }
        other => panic!("expected a clear Transport error, got {other:?}"),
    }
}

#[test]
fn multi_thread_runtime_blocks_and_returns_value() {
    let mt = multi_thread(2);
    let handle = mt.handle().clone();

    let result: Result<u32, ChainSourceError> =
        mt.block_on(async { run_blocking(&handle, async { 42u32 }) });

    assert_eq!(result, Ok(42));
}

#[test]
fn outside_runtime_blocks_directly() {
    let mt = multi_thread(1);
    let handle = mt.handle().clone();

    assert_eq!(run_blocking(&handle, async { 100u32 }), Ok(100));
}

#[test]
fn blocking_plans_are_exact() {
    assert_eq!(plan_blocking(AmbientRuntime::Outside), Ok(Blocking::Direct));
    assert_eq!(
        plan_blocking(AmbientRuntime::MultiThread),
        Ok(Blocking::InPlace)
    );
    assert_eq!(
        plan_blocking(AmbientRuntime::CurrentThread),
        Err(ChainSourceError::Transport(CURRENT_THREAD_MSG.into()))
    );
}

#[test]
fn a_panic_is_an_error() {
    assert_eq!(
        guard_panics::<u8>(None),
        Err(ChainSourceError::Transport(PANIC_MSG.into()))
    );
    assert!(PANIC_MSG.contains("caught a panic"));
    assert_eq!(guard_panics(Some(3)), Ok(3));
}
