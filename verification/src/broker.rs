//! Names and declaration parameters of the two durable queues. Producer,
//! worker and reconciler must agree on these for messages to flow.

use vstd::prelude::*;

verus! {

pub open spec fn spec_pending_queue() -> Seq<char> {
    "pendingVideoStylizerTasks"@
}

pub open spec fn spec_completed_queue() -> Seq<char> {
    "completedVideoStylizerTasks"@
}

/// The queue carrying freshly created tasks from the producer to the workers.
pub fn pending_queue_name() -> (r: String)
    ensures
        r@ == spec_pending_queue(),
{
    "pendingVideoStylizerTasks".to_owned()
}

/// The queue carrying finished tasks from the workers to the reconciler.
pub fn completed_queue_name() -> (r: String)
    ensures
        r@ == spec_completed_queue(),
{
    "completedVideoStylizerTasks".to_owned()
}

/// How both queues are declared: durable, deleted automatically when unused.
/// Every component must declare with the same parameters — the broker
/// refuses a conflicting redeclaration.
pub struct QueueParams {
    pub durable: bool,
    pub auto_delete: bool,
}

pub fn queue_declare_params() -> (r: QueueParams)
    ensures
        r.durable,
        r.auto_delete,
{
    QueueParams { durable: true, auto_delete: true }
}

} // verus!
