use vstd::prelude::*;

use crate::codemode::{error_text, validate_json_depth, CallOutcome, CallTrace, Error, InvokeError, Limits, timeout_seconds};
use crate::json::{within_depth, JsonValue};
use crate::text::{concat2, concat3, copy_str, decimal, decimal_string};

verus! {

/// Failures of the JavaScript runtime around an execution.
pub enum RuntimeError {
    Initialization(String),
    Bootstrap(String),
    Capture(String),
    JsonDepthExceeded { maximum: usize },
    Trace,
    Timeout,
}

pub open spec fn runtime_error_text(e: RuntimeError) -> Seq<char> {
    match e {
        RuntimeError::Initialization(m) => "JavaScript runtime initialization failed: "@ + m@,
        RuntimeError::Bootstrap(m) => "JavaScript runtime bootstrap failed: "@ + m@,
        RuntimeError::Capture(m) => "JavaScript runtime capture failed: "@ + m@,
        RuntimeError::JsonDepthExceeded { maximum } => "JSON value exceeds the maximum depth of "@
            + decimal(maximum as nat),
        RuntimeError::Trace => "callback trace is unavailable"@,
        RuntimeError::Timeout => "JavaScript execution timed out"@,
    }
}

impl RuntimeError {
    pub fn is_timeout(&self) -> (b: bool)
        ensures
            b == (self is Timeout),
    {
        match self {
            RuntimeError::Timeout => true,
            _ => false,
        }
    }

    pub fn json_depth_maximum(&self) -> (m: Option<usize>)
        ensures
            *self matches RuntimeError::JsonDepthExceeded { maximum } ==> m == Some(maximum),
            !(self is JsonDepthExceeded) ==> m is None,
    {
        match self {
            RuntimeError::JsonDepthExceeded { maximum } => Some(*maximum),
            _ => None,
        }
    }

    /// The error's message, as its `Display` text reads.
    pub fn to_text(&self) -> (t: String)
        ensures
            t@ == runtime_error_text(*self),
    {
        match self {
            RuntimeError::Initialization(m) => concat2("JavaScript runtime initialization failed: ", m.as_str()),
            RuntimeError::Bootstrap(m) => concat2("JavaScript runtime bootstrap failed: ", m.as_str()),
            RuntimeError::Capture(m) => concat2("JavaScript runtime capture failed: ", m.as_str()),
            RuntimeError::JsonDepthExceeded { maximum } => {
                let n = decimal_string(*maximum as u64);
                concat2("JSON value exceeds the maximum depth of ", n.as_str())
            },
            RuntimeError::Trace => copy_str("callback trace is unavailable"),
            RuntimeError::Timeout => copy_str("JavaScript execution timed out"),
        }
    }
}

/// The error an execution reports when its time runs out.
pub fn timeout_error(limits: Limits) -> (e: Error)
    ensures
        e == (Error::ExecutionTimeout { seconds: timeout_seconds(limits) }),
{
    Error::ExecutionTimeout { seconds: limits.execution_timeout_ms / 1000 }
}

/// The public error for a failed runtime: a timeout or a too-deep value keep
/// their kind, anything else is reported with its message.
pub fn execution_error(error: RuntimeError, limits: Limits) -> (e: Error)
    ensures
        error is Timeout ==> e == (Error::ExecutionTimeout { seconds: timeout_seconds(limits) }),
        error matches RuntimeError::JsonDepthExceeded { maximum } ==> e == (Error::JsonDepthExceeded { maximum }),
        !(error is Timeout) && !(error is JsonDepthExceeded) ==> (e matches Error::Runtime(m) && m@
            == runtime_error_text(error)),
{
    if error.is_timeout() {
        timeout_error(limits)
    } else if let Some(maximum) = error.json_depth_maximum() {
        Error::JsonDepthExceeded { maximum }
    } else {
        Error::Runtime(error.to_text())
    }
}

/// One traced call, as plain values: its sequence number, the function's
/// public name, its duration and its outcome.
pub type TracedCall = (u64, Seq<char>, u64, CallOutcome);

/// Number of leading entries whose sequence number is at most `s`.
pub open spec fn position_after(calls: Seq<TracedCall>, s: u64) -> nat
    decreases calls.len(),
{
    if calls.len() == 0 || calls[0].0 > s {
        0
    } else {
        1 + position_after(calls.drop_first(), s)
    }
}

/// The entries are in order of sequence number.
pub open spec fn sequence_ordered(calls: Seq<TracedCall>) -> bool {
    forall|i: int, j: int| 0 <= i <= j < calls.len() ==> calls[i].0 <= calls[j].0
}

/// The bookkeeping of host operation calls during one execution: how many
/// calls started, and a trace of at most `max_callback_trace_calls` of them
/// kept in order of their start.
pub struct CallLedger {
    limits: Limits,
    next_sequence: u64,
    calls: Vec<(u64, CallTrace)>,
    truncated: bool,
    started: usize,
}

/// A call that passed admission, with the sequence number its trace entry
/// will carry (none when the trace was full).
pub struct AdmittedCall {
    public_name: String,
    sequence: Option<u64>,
}

impl AdmittedCall {
    pub closed spec fn name(&self) -> Seq<char> {
        self.public_name@
    }

    pub closed spec fn sequence(&self) -> Option<u64> {
        self.sequence
    }
}

/// What a program receives for one host call.
pub enum InvokeResponse {
    Success { value: JsonValue },
    Error { code: String, message: String, remediation: Option<String> },
}

impl CallLedger {
    #[verifier::type_invariant]
    spec fn well_formed(self) -> bool {
        sequence_ordered(self.traced())
    }

    pub closed spec fn limits(&self) -> Limits {
        self.limits
    }

    pub closed spec fn next_sequence(&self) -> u64 {
        self.next_sequence
    }

    pub closed spec fn traced(&self) -> Seq<TracedCall> {
        self.calls@.map_values(|e: (u64, CallTrace)| (e.0, e.1.name@, e.1.duration_ms, e.1.outcome))
    }

    pub closed spec fn is_truncated(&self) -> bool {
        self.truncated
    }

    pub closed spec fn started(&self) -> usize {
        self.started
    }

    /// An empty ledger.
    pub fn new(limits: Limits) -> (l: Self)
        ensures
            l.limits() == limits,
            l.next_sequence() == 0,
            l.traced() == Seq::<TracedCall>::empty(),
            !l.is_truncated(),
            l.started() == 0,
    {
        let l = CallLedger { limits, next_sequence: 0, calls: Vec::new(), truncated: false, started: 0 };
        assert(l.traced() =~= Seq::<TracedCall>::empty());
        l
    }

    /// Takes the next sequence number, or marks the trace truncated when it
    /// is full.
    fn begin(&mut self) -> (s: Option<u64>)
        ensures
            final(self).limits() == old(self).limits(),
            final(self).traced() == old(self).traced(),
            final(self).started() == old(self).started(),
            old(self).next_sequence() >= old(self).limits().max_callback_trace_calls ==> {
                &&& s is None
                &&& final(self).is_truncated()
                &&& final(self).next_sequence() == old(self).next_sequence()
            },
            old(self).next_sequence() < old(self).limits().max_callback_trace_calls ==> {
                &&& s == Some(old(self).next_sequence())
                &&& final(self).is_truncated() == old(self).is_truncated()
                &&& final(self).next_sequence() == old(self).next_sequence() + 1
            },
    {
        proof {
            use_type_invariant(&*self);
        }
        if self.next_sequence >= self.limits.max_callback_trace_calls as u64 {
            self.truncated = true;
            return None;
        }
        let sequence = self.next_sequence;
        self.next_sequence = self.next_sequence + 1;
        Some(sequence)
    }

    /// Records a finished call under its sequence number.
    fn finish(&mut self, sequence: Option<u64>, name: String, duration_ms: u64, outcome: CallOutcome)
        ensures
            final(self).limits() == old(self).limits(),
            final(self).next_sequence() == old(self).next_sequence(),
            final(self).is_truncated() == old(self).is_truncated(),
            final(self).started() == old(self).started(),
            sequence is None ==> final(self).traced() == old(self).traced(),
            sequence matches Some(s) ==> final(self).traced() == old(self).traced().insert(
                position_after(old(self).traced(), s) as int,
                (s, name@, duration_ms, outcome),
            ),
    {
        proof {
            use_type_invariant(&*self);
        }
        let s = match sequence {
            Some(s) => s,
            None => {
                return;
            },
        };
        let ghost t = self.traced();
        let mut i: usize = 0;
        assert(t.subrange(0, t.len() as int) =~= t);
        while i < self.calls.len() && self.calls[i].0 <= s
            invariant
                t == self.traced(),
                sequence_ordered(t),
                i <= t.len(),
                forall|j: int| 0 <= j < i ==> t[j].0 <= s,
                position_after(t, s) == i + position_after(t.subrange(i as int, t.len() as int), s),
            decreases t.len() - i,
        {
            let ghost rest = t.subrange(i as int, t.len() as int);
            assert(rest.drop_first() =~= t.subrange(i + 1, t.len() as int));
            assert(rest[0] == t[i as int]);
            i = i + 1;
        }
        proof {
            let rest = t.subrange(i as int, t.len() as int);
            if i < t.len() {
                assert(rest[0] == t[i as int]);
            }
        }
        assert(position_after(t, s) == i);
        let ghost entry: TracedCall = (s, name@, duration_ms, outcome);
        let ghost inserted = t.insert(i as int, entry);
        assert(sequence_ordered(inserted)) by {
            assert forall|a: int, b: int| 0 <= a <= b < inserted.len() implies inserted[a].0 <= inserted[b].0 by {
                if a < i && b < i {
                } else if a < i && b == i {
                } else if a < i {
                    assert(inserted[b] == t[b - 1]);
                } else if a == i && b > i {
                    assert(inserted[b] == t[b - 1]);
                } else if a > i {
                    assert(inserted[a] == t[a - 1]);
                    assert(inserted[b] == t[b - 1]);
                }
            }
        }
        let mut calls: Vec<(u64, CallTrace)> = Vec::new();
        std::mem::swap(&mut calls, &mut self.calls);
        calls.insert(i, (s, CallTrace { name, duration_ms, outcome }));
        assert(calls@.map_values(|e: (u64, CallTrace)| (e.0, e.1.name@, e.1.duration_ms, e.1.outcome))
            =~= inserted);
        self.calls = calls;
    }

    /// The trace in order of sequence number, and whether calls were left out.
    pub fn captured_calls(&self) -> (r: (Vec<CallTrace>, bool))
        ensures
            r.0@.len() == self.traced().len(),
            forall|j: int|
                0 <= j < r.0@.len() ==> (#[trigger] r.0@[j]).name@ == self.traced()[j].1
                    && r.0@[j].duration_ms == self.traced()[j].2 && r.0@[j].outcome == self.traced()[j].3,
            sequence_ordered(self.traced()),
            r.1 == self.is_truncated(),
    {
        proof {
            use_type_invariant(self);
        }
        let mut out: Vec<CallTrace> = Vec::new();
        let mut i: usize = 0;
        while i < self.calls.len()
            invariant
                i <= self.calls@.len(),
                out@.len() == i,
                forall|j: int|
                    0 <= j < i ==> (#[trigger] out@[j]).name@ == self.traced()[j].1 && out@[j].duration_ms
                        == self.traced()[j].2 && out@[j].outcome == self.traced()[j].3,
            decreases self.calls@.len() - i,
        {
            let c = &self.calls[i].1;
            out.push(CallTrace { name: copy_str(c.name.as_str()), duration_ms: c.duration_ms, outcome: c.outcome });
            i = i + 1;
        }
        (out, self.truncated)
    }

    /// Admits a call of a host operation, or refuses it with the message the
    /// program sees. A refused call of a known operation is traced as failed.
    pub fn admit_call(&mut self, public_name: Option<String>, arguments: Option<&JsonValue>, elapsed_ms: u64) -> (r: Result<AdmittedCall, String>)
        ensures
            final(self).limits() == old(self).limits(),
            public_name is None ==> {
                &&& r matches Err(m) && m@ == "host operation was not found"@
                &&& final(self).traced() == old(self).traced()
                &&& final(self).next_sequence() == old(self).next_sequence()
                &&& final(self).is_truncated() == old(self).is_truncated()
                &&& final(self).started() == old(self).started()
            },
            public_name matches Some(name) ==> {
                let sequence = begun_sequence(old(self).next_sequence(), old(self).limits());
                let limits = old(self).limits();
                &&& final(self).next_sequence() == (if sequence is Some {
                    (old(self).next_sequence() + 1) as u64
                } else {
                    old(self).next_sequence()
                })
                &&& final(self).is_truncated() == (old(self).is_truncated() || sequence is None)
                &&& final(self).started() == count_after(old(self).started())
                &&& if call_number(old(self).started()) > limits.max_calls {
                    &&& r matches Err(m) && m@ == call_limit_message(limits.max_calls)
                    &&& final(self).traced() == recorded(old(self).traced(), sequence, name@, elapsed_ms, CallOutcome::Error)
                } else if arguments matches Some(a) && !within_depth(*a, limits.max_json_depth as int) {
                    &&& r matches Err(m) && m@ == error_text(Error::JsonDepthExceeded { maximum: limits.max_json_depth })
                    &&& final(self).traced() == recorded(old(self).traced(), sequence, name@, elapsed_ms, CallOutcome::Error)
                } else {
                    &&& r matches Ok(c) && c.name() == name@ && c.sequence() == sequence
                    &&& final(self).traced() == old(self).traced()
                }
            },
    {
        let name = match public_name {
            Some(n) => n,
            None => {
                return Err(copy_str("host operation was not found"));
            },
        };
        let sequence = self.begin();
        let number = if self.started == usize::MAX {
            usize::MAX
        } else {
            self.started + 1
        };
        let count = if self.started == usize::MAX {
            0
        } else {
            self.started + 1
        };
        self.set_started(count);
        if number > self.limits.max_calls {
            let message = call_limit_text(self.limits.max_calls);
            self.finish(sequence, name, elapsed_ms, CallOutcome::Error);
            return Err(message);
        }
        if let Some(a) = arguments {
            if let Err(e) = validate_json_depth(a, self.limits.max_json_depth) {
                self.finish(sequence, name, elapsed_ms, CallOutcome::Error);
                return Err(e.to_text());
            }
        }
        Ok(AdmittedCall { public_name: name, sequence })
    }

    fn set_started(&mut self, count: usize)
        ensures
            final(self).limits() == old(self).limits(),
            final(self).traced() == old(self).traced(),
            final(self).next_sequence() == old(self).next_sequence(),
            final(self).is_truncated() == old(self).is_truncated(),
            final(self).started() == count,
    {
        proof {
            use_type_invariant(&*self);
        }
        self.started = count;
    }

    /// Completes an admitted call with what the host returned: a returned
    /// value nested too deep fails the call; otherwise the program receives
    /// the value or the public diagnostic. The call is traced either way.
    pub fn complete_call(&mut self, call: AdmittedCall, result: Result<JsonValue, InvokeError>, elapsed_ms: u64) -> (r: Result<InvokeResponse, String>)
        ensures
            final(self).limits() == old(self).limits(),
            final(self).next_sequence() == old(self).next_sequence(),
            final(self).is_truncated() == old(self).is_truncated(),
            final(self).started() == old(self).started(),
            result is Ok && !within_depth(result->Ok_0, old(self).limits().max_json_depth as int) ==> {
                &&& r matches Err(m) && m@ == error_text(
                    Error::JsonDepthExceeded { maximum: old(self).limits().max_json_depth },
                )
                &&& final(self).traced() == recorded(old(self).traced(), call.sequence(), call.name(), elapsed_ms, CallOutcome::Error)
            },
            result is Ok && within_depth(result->Ok_0, old(self).limits().max_json_depth as int) ==> {
                &&& r matches Ok(InvokeResponse::Success { value }) && value == result->Ok_0
                &&& final(self).traced() == recorded(old(self).traced(), call.sequence(), call.name(), elapsed_ms, CallOutcome::Success)
            },
            result is Err && result->Err_0 is Public ==> {
                &&& r matches Ok(InvokeResponse::Error { code, message, remediation }) && code@
                    == result->Err_0->Public_0.code@ && message@ == result->Err_0->Public_0.message@
                    && remediation == result->Err_0->Public_0.remediation
                &&& final(self).traced() == recorded(old(self).traced(), call.sequence(), call.name(), elapsed_ms, CallOutcome::Error)
            },
            result is Err && result->Err_0 is Private ==> {
                &&& r matches Ok(InvokeResponse::Error { code, message, remediation }) && code@ == "operation_failed"@
                    && message@ == "host operation failed"@ && remediation is None
                &&& final(self).traced() == recorded(old(self).traced(), call.sequence(), call.name(), elapsed_ms, CallOutcome::Error)
            },
    {
        let AdmittedCall { public_name, sequence } = call;
        if let Ok(value) = &result {
            if let Err(e) = validate_json_depth(value, self.limits.max_json_depth) {
                self.finish(sequence, public_name, elapsed_ms, CallOutcome::Error);
                return Err(e.to_text());
            }
        }
        let outcome = match &result {
            Ok(_) => CallOutcome::Success,
            Err(_) => CallOutcome::Error,
        };
        self.finish(sequence, public_name, elapsed_ms, outcome);
        Ok(
            match result {
                Ok(value) => InvokeResponse::Success { value },
                Err(InvokeError::Public(diagnostic)) => InvokeResponse::Error {
                    code: diagnostic.code,
                    message: diagnostic.message,
                    remediation: diagnostic.remediation,
                },
                Err(InvokeError::Private) => InvokeResponse::Error {
                    code: copy_str("operation_failed"),
                    message: copy_str("host operation failed"),
                    remediation: None,
                },
            },
        )
    }
}

/// The sequence number a new call takes: the next one, unless the trace is
/// full.
pub open spec fn begun_sequence(next: u64, limits: Limits) -> Option<u64> {
    if next >= limits.max_callback_trace_calls {
        None
    } else {
        Some(next)
    }
}

/// The number of a call after `started` others (saturating).
pub open spec fn call_number(started: usize) -> int {
    if started == usize::MAX {
        usize::MAX as int
    } else {
        started + 1
    }
}

/// The call counter after one more call (it wraps around).
pub open spec fn count_after(started: usize) -> usize {
    if started == usize::MAX {
        0
    } else {
        (started + 1) as usize
    }
}

/// The call counter of a fresh ledger after `n` calls.
pub open spec fn counter_after(n: nat) -> usize
    decreases n,
{
    if n == 0 {
        0
    } else {
        count_after(counter_after((n - 1) as nat))
    }
}

/// How many of the first `n` calls on a fresh ledger pass the call limit.
pub open spec fn admitted_calls(n: nat, max_calls: usize) -> nat
    decreases n,
{
    if n == 0 {
        0
    } else {
        admitted_calls((n - 1) as nat, max_calls) + if call_number(counter_after((n - 1) as nat)) <= max_calls {
            1nat
        } else {
            0nat
        }
    }
}

/// Over a ledger's lifetime no more calls pass the call limit than it
/// allows: of the first `n` calls (fewer than the counter's range), exactly
/// the first `max_calls` are admitted.
pub proof fn lemma_lifetime_call_limit(n: nat, max_calls: usize)
    requires
        n < usize::MAX,
    ensures
        counter_after(n) == n,
        admitted_calls(n, max_calls) == if n <= max_calls { n } else { max_calls as nat },
        admitted_calls(n, max_calls) <= max_calls,
    decreases n,
{
    if n > 0 {
        lemma_lifetime_call_limit((n - 1) as nat, max_calls);
    }
}

/// The trace with one finished call put in its place, when it has a sequence
/// number.
pub open spec fn recorded(traced: Seq<TracedCall>, sequence: Option<u64>, name: Seq<char>, duration_ms: u64, outcome: CallOutcome) -> Seq<TracedCall> {
    match sequence {
        Some(s) => traced.insert(position_after(traced, s) as int, (s, name, duration_ms, outcome)),
        None => traced,
    }
}

pub open spec fn call_limit_message(max_calls: usize) -> Seq<char> {
    "execution exceeded the "@ + decimal(max_calls as nat) + " host operation limit"@
}

fn call_limit_text(max_calls: usize) -> (t: String)
    ensures
        t@ == call_limit_message(max_calls),
{
    let n = decimal_string(max_calls as u64);
    concat3("execution exceeded the ", n.as_str(), " host operation limit")
}

} // verus!
