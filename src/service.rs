//! The client-facing endpoint: validates requests, hands them to the call
//! registry, and turns execution results and registry outcomes into replies.
//!
//! The endpoint never waits itself. The transport runs the executor and the
//! completion channels, and hands the results back to the functions here.
use vstd::prelude::*;

use crate::metrics::{recorded, Metrics, Operation};
use crate::registry::{
    after_publish, after_subscribe, deliveries_of, subscription_of, CallRegistry, Delivery,
    Outcome, OutcomeModel, RegistryModel, Subscription, SubscriptionModel, waiters_distinct,
};
use crate::CALL_ID_LENGTH;

verus! {

/// The status codes that replies can fail with.
#[derive(Clone, Copy, Debug, PartialEq, Eq, Structural)]
pub enum StatusCode {
    /// The request was malformed.
    InvalidArgument,
    /// The call could not be carried out.
    Internal,
}

/// A failed reply: a code and an optional description.
pub struct RpcStatus {
    pub code: StatusCode,
    pub message: Option<String>,
}

impl RpcStatus {
    pub open spec fn view(&self) -> (StatusCode, Option<Seq<char>>) {
        (
            self.code,
            match self.message {
                Some(m) => Some(m@),
                None => None,
            },
        )
    }
}

/// What a reply is: an output, or a failed status.
pub type ReplyModel = Result<Seq<u8>, (StatusCode, Option<Seq<char>>)>;

pub open spec fn reply_view(r: Result<Vec<u8>, RpcStatus>) -> ReplyModel {
    match r {
        Ok(o) => Ok(o@),
        Err(s) => Err(s@),
    }
}

/// An internal failure that carries `description`.
pub open spec fn internal(description: Seq<char>) -> ReplyModel {
    Err((StatusCode::Internal, Some(description)))
}

/// The description given when a completion channel was dropped before it
/// delivered a result.
pub const CANCELED_DESCRIPTION: &'static str = "completion channel dropped before a result was delivered";

/// The description given when a call's record was evicted after it resolved.
pub const EXPIRED_DESCRIPTION: &'static str = "call result expired";

/// The reply that a stored outcome gives: its output, or an internal failure
/// with its description.
pub open spec fn outcome_reply_model(o: OutcomeModel) -> ReplyModel {
    match o {
        OutcomeModel::Output(b) => Ok(b),
        OutcomeModel::Failure(d) => internal(d),
    }
}

/// What the executor's completion channel handed back: `None` when the
/// channel was dropped, else the executor's output or its error description.
pub type ExecutionModel = Option<Result<Seq<u8>, Seq<char>>>;

pub open spec fn execution_view(e: Option<Result<Vec<u8>, String>>) -> ExecutionModel {
    match e {
        Some(Ok(o)) => Some(Ok(o@)),
        Some(Err(d)) => Some(Err(d@)),
        None => None,
    }
}

/// The outcome that an execution result resolves its call with.
pub open spec fn execution_outcome(e: ExecutionModel) -> OutcomeModel {
    match e {
        Some(Ok(o)) => OutcomeModel::Output(o),
        Some(Err(d)) => OutcomeModel::Failure(d),
        None => OutcomeModel::Failure(CANCELED_DESCRIPTION@),
    }
}

/// Whether `id` has the length of a call identifier.
pub fn is_valid_call_id(id: &Vec<u8>) -> (r: bool)
    ensures
        r == (id@.len() == CALL_ID_LENGTH),
{
    id.len() == CALL_ID_LENGTH
}

/// The outcome that an execution result resolves its call with.
pub fn outcome_of_execution(result: Option<Result<Vec<u8>, String>>) -> (r: Outcome)
    ensures
        r@ == execution_outcome(execution_view(result)),
{
    match result {
        Some(Ok(o)) => Outcome::Output(o),
        Some(Err(d)) => Outcome::Failure(d),
        None => {
            Outcome::Failure(CANCELED_DESCRIPTION.to_owned())
        },
    }
}

/// The reply that a stored outcome gives.
pub fn outcome_reply(o: Outcome) -> (r: Result<Vec<u8>, RpcStatus>)
    ensures
        reply_view(r) == outcome_reply_model(o@),
{
    match o {
        Outcome::Output(b) => Ok(b),
        Outcome::Failure(d) => Err(RpcStatus { code: StatusCode::Internal, message: Some(d) }),
    }
}

/// The reply to a contract call, from what the executor's completion channel
/// handed back: the output unchanged on success, otherwise an internal failure
/// with the executor's description, or with a fixed one if the channel was
/// dropped.
pub fn call_contract_reply(result: Option<Result<Vec<u8>, String>>) -> (r: Result<
    Vec<u8>,
    RpcStatus,
>)
    ensures
        reply_view(r) == outcome_reply_model(execution_outcome(execution_view(result))),
        result matches Some(Ok(o)) ==> (r matches Ok(out) && out@ == o@),
        result matches Some(Err(d)) ==> reply_view(r) == internal(d@),
        result is None ==> reply_view(r) == internal(CANCELED_DESCRIPTION@),
{
    outcome_reply(outcome_of_execution(result))
}

/// The reply that a waiter gets from its completion channel: the delivered
/// outcome's reply, or an internal failure with a fixed description if the
/// channel was dropped.
pub fn delivery_reply(delivered: Option<Outcome>) -> (r: Result<Vec<u8>, RpcStatus>)
    ensures
        delivered matches Some(o) ==> reply_view(r) == outcome_reply_model(o@),
        delivered is None ==> reply_view(r) == internal(CANCELED_DESCRIPTION@),
{
    match delivered {
        Some(o) => outcome_reply(o),
        None => {
            Err(
                RpcStatus {
                    code: StatusCode::Internal,
                    message: Some(CANCELED_DESCRIPTION.to_owned()),
                },
            )
        },
    }
}

/// The reply that a subscription gives at once: none while the subscriber
/// waits, the stored outcome's reply if the call was resolved, and an
/// internal failure if its record expired.
pub fn subscription_reply(s: Subscription) -> (r: Option<Result<Vec<u8>, RpcStatus>>)
    ensures
        s is Waiting <==> r is None,
        s matches Subscription::Ready(o) ==> (r matches Some(x) && reply_view(x)
            == outcome_reply_model(o@)),
        s is Expired ==> (r matches Some(x) && reply_view(x) == internal(EXPIRED_DESCRIPTION@)),
{
    match s {
        Subscription::Waiting(_) => None,
        Subscription::Ready(o) => Some(outcome_reply(o)),
        Subscription::Expired => {
            Some(
                Err(
                    RpcStatus {
                        code: StatusCode::Internal,
                        message: Some(EXPIRED_DESCRIPTION.to_owned()),
                    },
                ),
            )
        },
    }
}

/// The gateway's state: the call registry and the metrics of both
/// operations.
pub struct Web3Service {
    registry: CallRegistry,
    metrics: Metrics,
}

impl Web3Service {
    pub closed spec fn wf(&self) -> bool {
        self.registry.wf()
    }

    /// The contents of the call registry.
    pub closed spec fn calls(&self) -> RegistryModel {
        self.registry@
    }

    /// The metrics of both operations.
    pub closed spec fn figures(&self) -> Metrics {
        self.metrics
    }

    /// No subscriber ever waits twice on one call, so each waiting
    /// subscriber gets exactly one delivery when the call is published.
    pub proof fn lemma_waiters_distinct(&self)
        requires
            self.wf(),
        ensures
            waiters_distinct(self.calls()),
    {
        self.registry.lemma_waiters_distinct();
    }

    /// A gateway with no calls and no invocations counted.
    pub fn new() -> (r: Web3Service)
        ensures
            r.wf(),
            r.calls() == Map::<Seq<u8>, crate::registry::PhaseModel>::empty(),
            r.figures().call_contract.is_zero(),
            r.figures().wait_contract_call.is_zero(),
    {
        Web3Service { registry: CallRegistry::new(), metrics: Metrics::new() }
    }

    /// Completes a contract call from what the executor handed back, and
    /// counts the invocation with its handling time `latency` in
    /// nanoseconds, whatever the result. The reply is the output unchanged
    /// on success and an internal failure otherwise. Where the call's
    /// identifier is known, its outcome is published, and the deliveries owed
    /// to its waiters are returned.
    pub fn call_contract(
        &mut self,
        call_id: Option<Vec<u8>>,
        result: Option<Result<Vec<u8>, String>>,
        latency: u64,
    ) -> (r: (Result<Vec<u8>, RpcStatus>, Vec<Delivery>))
        requires
            old(self).wf(),
        ensures
            final(self).wf(),
            final(self).figures().of(Operation::CallContract) == recorded(
                old(self).figures().of(Operation::CallContract),
                latency,
            ),
            final(self).figures().of(Operation::WaitContractCall) == old(self).figures().of(
                Operation::WaitContractCall,
            ),
            reply_view(r.0) == outcome_reply_model(execution_outcome(execution_view(result))),
            result matches Some(Ok(o)) ==> (r.0 matches Ok(out) && out@ == o@),
            call_id is None ==> final(self).calls() == old(self).calls() && r.1@.len() == 0,
            call_id matches Some(id) ==> final(self).calls() == after_publish(
                old(self).calls(),
                id@,
                execution_outcome(execution_view(result)),
            ) && r.1@.map_values(|d: Delivery| d@) == deliveries_of(
                old(self).calls(),
                id@,
                execution_outcome(execution_view(result)),
            ),
    {
        self.metrics.record(Operation::CallContract, latency);
        match call_id {
            None => (call_contract_reply(result), Vec::new()),
            Some(id) => {
                let outcome = outcome_of_execution(result);
                let reply = outcome_reply(outcome.duplicate());
                let deliveries = self.registry.publish(&id, outcome);
                (reply, deliveries)
            },
        }
    }

    /// Starts waiting on `call_id` for subscriber `token`, and counts the
    /// invocation with its handling time `latency` in nanoseconds, whatever
    /// the result. An identifier of the wrong length is refused as an invalid
    /// argument and leaves the registry untouched; any other is subscribed to.
    pub fn wait_contract_call(&mut self, call_id: &Vec<u8>, token: u64, latency: u64) -> (r:
        Result<Subscription, RpcStatus>)
        requires
            old(self).wf(),
        ensures
            final(self).wf(),
            final(self).figures().of(Operation::WaitContractCall) == recorded(
                old(self).figures().of(Operation::WaitContractCall),
                latency,
            ),
            final(self).figures().of(Operation::CallContract) == old(self).figures().of(
                Operation::CallContract,
            ),
            call_id@.len() != CALL_ID_LENGTH ==> final(self).calls() == old(self).calls(),
            call_id@.len() != CALL_ID_LENGTH ==> (r matches Err(s) && s@ == (
                StatusCode::InvalidArgument,
                None::<Seq<char>>,
            )),
            call_id@.len() == CALL_ID_LENGTH ==> final(self).calls() == after_subscribe(
                old(self).calls(),
                call_id@,
                token,
            ),
            call_id@.len() == CALL_ID_LENGTH ==> (r matches Ok(s) && s@ == subscription_of(
                old(self).calls(),
                call_id@,
                token,
            )),
    {
        self.metrics.record(Operation::WaitContractCall, latency);
        if !is_valid_call_id(call_id) {
            return Err(RpcStatus { code: StatusCode::InvalidArgument, message: None });
        }
        Ok(self.registry.subscribe(call_id, token))
    }

    /// Resolves `call_id` with `outcome`, as the agreement layer does once a
    /// call is final. The first publish for an id wins; the deliveries owed to
    /// its waiters are returned.
    pub fn publish(&mut self, call_id: &Vec<u8>, outcome: Outcome) -> (r: Vec<Delivery>)
        requires
            old(self).wf(),
        ensures
            final(self).wf(),
            final(self).figures() == old(self).figures(),
            final(self).calls() == after_publish(old(self).calls(), call_id@, outcome@),
            r@.map_values(|d: Delivery| d@) == deliveries_of(old(self).calls(), call_id@, outcome@),
    {
        self.registry.publish(call_id, outcome)
    }

    /// Evicts the stored outcome of a resolved `call_id`; later waiters on it
    /// are told that it expired. Returns whether a record was evicted.
    pub fn evict(&mut self, call_id: &Vec<u8>) -> (r: bool)
        requires
            old(self).wf(),
        ensures
            final(self).wf(),
            final(self).figures() == old(self).figures(),
            final(self).calls() == crate::registry::after_evict(old(self).calls(), call_id@),
            r == (old(self).calls().contains_key(call_id@) && old(self).calls()[call_id@] is Done),
    {
        self.registry.evict(call_id)
    }

    /// Whether a record for `call_id` is held.
    pub fn has_record(&self, call_id: &Vec<u8>) -> (r: bool)
        requires
            self.wf(),
        ensures
            r == self.calls().contains_key(call_id@),
    {
        self.registry.contains(call_id)
    }

    /// The number of records held.
    pub fn record_count(&self) -> (r: usize)
        requires
            self.wf(),
        ensures
            r == self.calls().dom().len(),
    {
        self.registry.len()
    }

    /// The metrics of both operations.
    pub fn metrics(&self) -> (r: Metrics)
        ensures
            r == self.figures(),
    {
        self.metrics
    }
}

} // verus!
