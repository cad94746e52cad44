use geoengine_core::context::{AbortableQueryExecution, ChunkByteSize, QueryContextImpl};
use geoengine_core::error::Error;

#[test]
fn the_abort_trigger_is_single_use() {
    let mut ctx = QueryContextImpl::new(ChunkByteSize::new(1024));
    assert_eq!(ctx.chunk_byte_size().bytes(), 1024);
    let trigger = ctx.abort_trigger();
    assert!(trigger.is_ok());
    let again = ctx.abort_trigger();
    assert!(matches!(again, Err(Error::AbortTriggerAlreadyUsed)));
    assert_eq!(ChunkByteSize::max().bytes(), usize::MAX);
}

#[test]
fn polling_yields_items_in_order() {
    let mut exec: AbortableQueryExecution<u32> =
        AbortableQueryExecution::new(vec![Ok(1), Ok(2), Err(Error::GridIndexOutOfBounds)]);
    assert!(matches!(exec.poll_next(), Some(Ok(1))));
    assert!(matches!(exec.poll_next(), Some(Ok(2))));
    assert!(matches!(
        exec.poll_next(),
        Some(Err(Error::GridIndexOutOfBounds))
    ));
    assert!(exec.poll_next().is_none());
}

#[test]
fn firing_the_abort_cancels_the_next_poll() {
    let mut ctx = QueryContextImpl::new(ChunkByteSize::max());
    let trigger = ctx.abort_trigger().unwrap();
    let mut exec: AbortableQueryExecution<u32> =
        AbortableQueryExecution::new(vec![Ok(1), Ok(2), Ok(3)]);
    assert!(matches!(exec.poll_next(), Some(Ok(1))));
    exec.fire_abort(trigger);
    // After the abort every poll is the cancellation error, never a success
    // and never exhaustion.
    assert!(matches!(exec.poll_next(), Some(Err(Error::Cancelled))));
    assert!(matches!(exec.poll_next(), Some(Err(Error::Cancelled))));
}
