//! Handler-side interfaces shared with the runtime.

use crate::span::Span;
use vstd::prelude::*;

verus! {

/// Observer notified whenever the SDK extends the claim lease (e.g. via
/// heartbeats or checkpoint writes). The worker uses this to reset its lease
/// watchdog.
pub trait LeaseObserver {
    fn observe(&self, lease: Span);
}

/// Adapter so closures can be used directly as task handlers.
pub struct FnHandler<F>(pub F);

} // verus!
