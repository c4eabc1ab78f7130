//! Per-operation invocation counters and latency figures.
use vstd::prelude::*;

verus! {

/// The two operations of the endpoint.
#[derive(Clone, Copy, Debug, PartialEq, Eq, Structural)]
pub enum Operation {
    CallContract,
    WaitContractCall,
}

/// The figures kept for one operation. Latencies are in nanoseconds; all
/// figures stop at the largest `u64` rather than wrap.
#[derive(Clone, Copy, Debug, PartialEq, Eq, Structural)]
pub struct OperationMetrics {
    pub calls: u64,
    pub latency_total: u64,
    pub latency_max: u64,
}

/// `a + b`, held at the largest `u64`.
pub open spec fn sat_add(a: u64, b: u64) -> u64 {
    if a + b > u64::MAX {
        u64::MAX
    } else {
        (a + b) as u64
    }
}

/// The figures after one more invocation that took `latency`.
pub open spec fn recorded(m: OperationMetrics, latency: u64) -> OperationMetrics {
    OperationMetrics {
        calls: sat_add(m.calls, 1),
        latency_total: sat_add(m.latency_total, latency),
        latency_max: if latency > m.latency_max {
            latency
        } else {
            m.latency_max
        },
    }
}

impl OperationMetrics {
    pub open spec fn is_zero(&self) -> bool {
        self.calls == 0 && self.latency_total == 0 && self.latency_max == 0
    }

    /// No invocation seen yet.
    pub fn zero() -> (r: OperationMetrics)
        ensures
            r.is_zero(),
    {
        OperationMetrics { calls: 0, latency_total: 0, latency_max: 0 }
    }

    /// Counts one invocation that took `latency`.
    pub fn record(&mut self, latency: u64)
        ensures
            *final(self) == recorded(*old(self), latency),
    {
        self.calls = self.calls.saturating_add(1);
        self.latency_total = self.latency_total.saturating_add(latency);
        if latency > self.latency_max {
            self.latency_max = latency;
        }
    }
}

/// The figures of both operations.
#[derive(Clone, Copy, Debug, PartialEq, Eq, Structural)]
pub struct Metrics {
    pub call_contract: OperationMetrics,
    pub wait_contract_call: OperationMetrics,
}

impl Metrics {
    /// The figures kept for `op`.
    pub open spec fn of(&self, op: Operation) -> OperationMetrics {
        match op {
            Operation::CallContract => self.call_contract,
            Operation::WaitContractCall => self.wait_contract_call,
        }
    }

    /// No invocation of either operation seen yet.
    pub fn new() -> (r: Metrics)
        ensures
            r.call_contract.is_zero(),
            r.wait_contract_call.is_zero(),
    {
        Metrics { call_contract: OperationMetrics::zero(), wait_contract_call: OperationMetrics::zero() }
    }

    /// Counts one invocation of `op` that took `latency`: the counter of `op`
    /// goes up by one, its latency figures take `latency` in, and the other
    /// operation's figures stay as they were.
    pub fn record(&mut self, op: Operation, latency: u64)
        ensures
            final(self).of(op) == recorded(old(self).of(op), latency),
            forall|other: Operation| other != op ==> final(self).of(other) == old(self).of(other),
    {
        match op {
            Operation::CallContract => self.call_contract.record(latency),
            Operation::WaitContractCall => self.wait_contract_call.record(latency),
        }
    }

    /// The figures kept for `op`.
    pub fn get(&self, op: Operation) -> (r: OperationMetrics)
        ensures
            r == self.of(op),
    {
        match op {
            Operation::CallContract => self.call_contract,
            Operation::WaitContractCall => self.wait_contract_call,
        }
    }
}

} // verus!
