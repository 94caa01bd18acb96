//! What is said of operations that took longer than they should.
use vstd::prelude::*;
use vstd::string::*;

use crate::text;
use crate::text::{decimal, has_part, parts_are_held};

verus! {

/// The milliseconds that a change of what is shown should take at most.
pub const UI_STALL_THRESHOLD: u64 = 16;

/// The milliseconds that a change of what is kept should take at most.
pub const STORAGE_THRESHOLD: u64 = 20;

/// The milliseconds that a command should take at most.
pub const PROCESS_THRESHOLD: u64 = 250;

/// The milliseconds that a request to the agent should take at most.
pub const RPC_THRESHOLD: u64 = 500;

/// An operation that is timed, and the milliseconds that it should take at most.
#[derive(Debug, PartialEq, Eq)]
pub struct SlowOperation {
    operation: &'static str,
    context: String,
    threshold: u64,
}

/// The value of a `SlowOperation`.
#[verifier::ext_equal]
pub struct OperationModel {
    pub operation: Seq<char>,
    pub context: Seq<char>,
    pub threshold: u64,
}

impl View for SlowOperation {
    type V = OperationModel;

    closed spec fn view(&self) -> OperationModel {
        OperationModel {
            operation: self.operation@,
            context: self.context@,
            threshold: self.threshold,
        }
    }
}

/// What is said of an operation that took `elapsed` nanoseconds, which read `shown` in
/// milliseconds. Of one that was fast enough nothing is said.
pub open spec fn slowness(operation: OperationModel, elapsed: u128, shown: Seq<char>) -> Option<
    Seq<char>,
> {
    if elapsed < operation.threshold * 1_000_000 {
        None
    } else {
        Some(
            "[perf] slow operation="@ + operation.operation + " elapsed_ms="@ + shown
                + " threshold_ms="@ + decimal(operation.threshold as nat) + " "@
                + operation.context,
        )
    }
}

impl SlowOperation {
    pub fn new(operation: &'static str, threshold: u64, context: &str) -> (r: Self)
        ensures
            r@ == (OperationModel { operation: operation@, context: context@, threshold }),
    {
        SlowOperation { operation, context: context.to_owned(), threshold }
    }

    /// See [`slowness`].
    pub fn ended(&self, elapsed: u128, shown: &str) -> (r: Option<String>)
        ensures
            match r {
                Some(line) => slowness(self@, elapsed, shown@) == Some(line@),
                None => slowness(self@, elapsed, shown@) is None,
            },
    {
        if elapsed < self.threshold as u128 * 1_000_000 {
            return None;
        }
        let mut line = text::concat3("[perf] slow operation=", self.operation, " elapsed_ms=");
        line.append(shown);
        line.append(" threshold_ms=");
        line.append(text::number(self.threshold, 10).as_str());
        line.append(" ");
        line.append(self.context.as_str());
        Some(line)
    }
}

/// Exactly what took as long as its threshold, or longer, is told of, with what it was, how long it
/// took and what it was about.
pub proof fn slow_operations_are_told(o: OperationModel, elapsed: u128, shown: Seq<char>)
    ensures
        slowness(o, elapsed, shown) is Some <==> elapsed >= o.threshold * 1_000_000,
        slowness(o, elapsed, shown) matches Some(told) ==> has_part(told, o.operation) && has_part(
            told,
            shown,
        ) && has_part(told, o.context) && has_part(told, decimal(o.threshold as nat)),
{
    let none = Seq::<char>::empty();
    let (a, b, c, d) = (
        "[perf] slow operation="@,
        " elapsed_ms="@,
        " threshold_ms="@,
        " "@,
    );
    let n = decimal(o.threshold as nat);
    let told = a + o.operation + b + shown + c + n + d + o.context;
    assert(a + o.operation + (b + shown + c + n + d + o.context) =~= told);
    parts_are_held(a, o.operation, b + shown + c + n + d + o.context);
    assert((a + o.operation + b) + shown + (c + n + d + o.context) =~= told);
    parts_are_held(a + o.operation + b, shown, c + n + d + o.context);
    assert((a + o.operation + b + shown + c) + n + (d + o.context) =~= told);
    parts_are_held(a + o.operation + b + shown + c, n, d + o.context);
    assert((a + o.operation + b + shown + c + n + d) + o.context + none =~= told);
    parts_are_held(a + o.operation + b + shown + c + n + d, o.context, none);
}

} // verus!
