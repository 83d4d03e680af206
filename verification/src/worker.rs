use vstd::prelude::*;

use crate::catalog::{find_operation, operation_name, OperationId};
use crate::codemode::{ExecuteOutput, InvokeError, Limits};
use crate::errors::{
    code_text, error_code, error_message, error_remediation, reported_to_caller, Error, ErrorCode, ErrorReport,
    PolicyError, SandboxError, ExecutionError,
};

verus! {

/// How many execution processes may run at once.
pub const MAX_CONCURRENT_EXECUTORS: usize = 4;

/// The largest payload of a frame between the server and an execution process.
pub const MAX_CHILD_FRAME_BYTES: usize = 524288;

/// The four bytes of `n`, most significant first.
pub open spec fn be_bytes(n: u32) -> Seq<u8> {
    seq![(n / 0x1000000) as u8, ((n / 0x10000) % 0x100) as u8, ((n / 0x100) % 0x100) as u8, (n % 0x100) as u8]
}

/// The number that four bytes spell, most significant first.
pub open spec fn be_value(b: Seq<u8>) -> nat
    recommends
        b.len() == 4,
{
    (b[0] as nat) * 0x1000000 + (b[1] as nat) * 0x10000 + (b[2] as nat) * 0x100 + (b[3] as nat)
}

/// A frame: the payload's length in four big-endian bytes, then the payload.
pub open spec fn frame_bytes(payload: Seq<u8>) -> Seq<u8> {
    be_bytes(payload.len() as u32) + payload
}

/// The four bytes of a number read back give the number.
pub proof fn lemma_be_round_trip(n: u32)
    ensures
        be_bytes(n).len() == 4,
        be_value(be_bytes(n)) == n,
{
    let a = n / 0x1000000;
    let b = (n / 0x10000) % 0x100;
    let c = (n / 0x100) % 0x100;
    let d = n % 0x100;
    assert(a < 0x100) by (nonlinear_arith)
        requires
            a == n / 0x1000000,
            n <= 0xffff_ffff,
    ;
    assert(a * 0x1000000 + b * 0x10000 + c * 0x100 + d == n) by (nonlinear_arith)
        requires
            a == n / 0x1000000,
            b == (n / 0x10000) % 0x100,
            c == (n / 0x100) % 0x100,
            d == n % 0x100,
    ;
}

/// Frames a payload for the execution process; a payload over the frame
/// limit is refused.
pub fn encode_frame(payload: &Vec<u8>) -> (r: Result<Vec<u8>, Error>)
    ensures
        payload@.len() <= MAX_CHILD_FRAME_BYTES ==> (r matches Ok(bytes) && bytes@ == frame_bytes(payload@)),
        payload@.len() > MAX_CHILD_FRAME_BYTES ==> (r matches Err(Error::Sandbox(SandboxError::RequestTooLarge { maximum }))
            && maximum == MAX_CHILD_FRAME_BYTES),
{
    if payload.len() > MAX_CHILD_FRAME_BYTES {
        return Err(Error::executor_request_too_large(MAX_CHILD_FRAME_BYTES));
    }
    let n = payload.len() as u32;
    let mut bytes: Vec<u8> = Vec::new();
    bytes.push((n / 0x1000000) as u8);
    bytes.push(((n / 0x10000) % 0x100) as u8);
    bytes.push(((n / 0x100) % 0x100) as u8);
    bytes.push((n % 0x100) as u8);
    let mut i: usize = 0;
    while i < payload.len()
        invariant
            i <= payload@.len(),
            payload@.len() <= MAX_CHILD_FRAME_BYTES,
            n == payload@.len(),
            bytes@ == be_bytes(n) + payload@.subrange(0, i as int),
        decreases payload@.len() - i,
    {
        bytes.push(payload[i]);
        i = i + 1;
        assert(payload@.subrange(0, i as int) =~= payload@.subrange(0, i - 1) + seq![payload@[i - 1]]);
    }
    assert(payload@.subrange(0, i as int) =~= payload@);
    Ok(bytes)
}

/// The message of a frame header that ends early.
pub open spec fn truncated_header_message() -> Seq<char> {
    "execution worker closed during a frame header"@
}

/// What a frame header read so far says.
pub enum HeaderStep {
    /// The stream ended cleanly before any byte of a frame.
    Closed,
    /// More header bytes are needed.
    Pending,
    /// The header is complete and announces a payload of this length.
    Length(usize),
}

/// The header of a frame, read a chunk at a time.
pub struct FrameHeader {
    bytes: Vec<u8>,
}

impl View for FrameHeader {
    type V = Seq<u8>;

    closed spec fn view(&self) -> Seq<u8> {
        self.bytes@
    }
}

impl FrameHeader {
    /// No more than the four header bytes have been read.
    pub open spec fn wf(&self) -> bool {
        self@.len() <= 4
    }

    /// How many header bytes the next read may still deliver.
    pub open spec fn remaining(&self) -> nat {
        (4 - self@.len()) as nat
    }

    pub fn new() -> (h: Self)
        ensures
            h.wf(),
            h@ == Seq::<u8>::empty(),
    {
        FrameHeader { bytes: Vec::new() }
    }

    /// Header bytes still missing.
    pub fn missing(&self) -> (n: usize)
        requires
            self.wf(),
        ensures
            n == self.remaining(),
    {
        4 - self.bytes.len()
    }

    /// Takes the bytes of one read, at most as many as are missing; an empty
    /// read means the stream ended.
    pub fn accept(&mut self, chunk: &Vec<u8>) -> (r: Result<HeaderStep, Error>)
        requires
            old(self).wf(),
            chunk@.len() <= old(self).remaining(),
        ensures
            final(self).wf(),
            final(self)@ == old(self)@ + chunk@,
            chunk@.len() == 0 && old(self)@.len() == 0 ==> (r matches Ok(HeaderStep::Closed)),
            chunk@.len() == 0 && old(self)@.len() > 0 ==> (r matches Err(Error::Sandbox(SandboxError::Io(m)))
                && m@ == truncated_header_message()),
            chunk@.len() > 0 && final(self)@.len() < 4 ==> (r matches Ok(HeaderStep::Pending)),
            chunk@.len() > 0 && final(self)@.len() == 4 && be_value(final(self)@) <= MAX_CHILD_FRAME_BYTES ==> (r matches Ok(
                HeaderStep::Length(n),
            ) && n == be_value(final(self)@)),
            chunk@.len() > 0 && final(self)@.len() == 4 && be_value(final(self)@) > MAX_CHILD_FRAME_BYTES ==> (r matches Err(
                Error::Sandbox(SandboxError::RequestTooLarge { maximum }),
            ) && maximum == MAX_CHILD_FRAME_BYTES),
    {
        if chunk.len() == 0 {
            if self.bytes.len() == 0 {
                return Ok(HeaderStep::Closed);
            }
            return Err(Error::executor_io("execution worker closed during a frame header"));
        }
        let ghost start = self.bytes@;
        let mut i: usize = 0;
        while i < chunk.len()
            invariant
                i <= chunk@.len(),
                start.len() + chunk@.len() <= 4,
                self.bytes@ == start + chunk@.subrange(0, i as int),
            decreases chunk@.len() - i,
        {
            self.bytes.push(chunk[i]);
            i = i + 1;
            assert(chunk@.subrange(0, i as int) =~= chunk@.subrange(0, i - 1) + seq![chunk@[i - 1]]);
        }
        assert(chunk@.subrange(0, i as int) =~= chunk@);
        if self.bytes.len() < 4 {
            return Ok(HeaderStep::Pending);
        }
        let b0 = self.bytes[0] as u64;
        let b1 = self.bytes[1] as u64;
        let b2 = self.bytes[2] as u64;
        let b3 = self.bytes[3] as u64;
        let length = b0 * 0x1000000 + b1 * 0x10000 + b2 * 0x100 + b3;
        if length > MAX_CHILD_FRAME_BYTES as u64 {
            return Err(Error::executor_request_too_large(MAX_CHILD_FRAME_BYTES));
        }
        Ok(HeaderStep::Length(length as usize))
    }
}

/// Reading back the header of a frame gives the length of its payload, and
/// the bytes after the header are the payload.
pub proof fn lemma_frame_round_trip(payload: Seq<u8>)
    requires
        payload.len() <= MAX_CHILD_FRAME_BYTES,
    ensures
        frame_bytes(payload).subrange(0, 4).len() == 4,
        be_value(frame_bytes(payload).subrange(0, 4)) == payload.len(),
        frame_bytes(payload).subrange(4, frame_bytes(payload).len() as int) == payload,
{
    let n = payload.len() as u32;
    lemma_be_round_trip(n);
    assert(frame_bytes(payload).subrange(0, 4) =~= be_bytes(n));
    assert(frame_bytes(payload).subrange(4, frame_bytes(payload).len() as int) =~= payload);
}

/// What an execution process sends back for one request.
pub enum WorkerResponse {
    Success { output: ExecuteOutput },
    Error { error: ErrorReport },
}

/// The response the execution process sends for the outcome of its request.
pub fn child_response(result: Result<ExecuteOutput, Error>) -> (r: WorkerResponse)
    ensures
        match result {
            Ok(o) => r matches WorkerResponse::Success { output } && output == o,
            Err(e) => if reported_to_caller(e) {
                &&& r matches WorkerResponse::Error { error: ErrorReport::Public(d) }
                &&& r->error->Public_0.code == error_code(e)
                &&& r->error->Public_0.message@ == error_message(e)
                &&& r->error->Public_0.remediation matches Some(x) ==> error_remediation(e) == Some(x@)
                &&& r->error->Public_0.remediation is None ==> error_remediation(e) is None
            } else {
                r matches WorkerResponse::Error { error: ErrorReport::Private }
            },
        },
{
    match result {
        Ok(output) => WorkerResponse::Success { output },
        Err(error) => WorkerResponse::Error { error: error.report() },
    }
}

/// The outcome of an execution from the response of its process (`None`
/// where the process closed without one).
pub fn worker_outcome(response: Option<WorkerResponse>, limits: Limits) -> (r: Result<ExecuteOutput, Error>)
    ensures
        match response {
            None => r matches Err(Error::Sandbox(SandboxError::Failed(m)))
                && m@ == "execution worker closed before responding"@,
            Some(WorkerResponse::Success { output }) => r matches Ok(o) && o == output,
            Some(WorkerResponse::Error { error: ErrorReport::Public(d) }) => if d.code == ErrorCode::ExecutionTimeout {
                r matches Err(Error::Execution(ExecutionError::Timeout { seconds }))
                    && seconds == limits.execution_timeout_ms / 1000
            } else {
                r matches Err(Error::Execution(ExecutionError::CodeMode { message, code }))
                    && message@ == d.message@ && code == d.code
            },
            Some(WorkerResponse::Error { error: ErrorReport::Private }) => r matches Err(
                Error::Sandbox(SandboxError::Failed(m)),
            ) && m@ == "execution worker returned an internal error"@,
        },
{
    match response {
        None => Err(Error::executor_failed("execution worker closed before responding")),
        Some(WorkerResponse::Success { output }) => Ok(output),
        Some(WorkerResponse::Error { error }) => match error {
            ErrorReport::Public(diagnostic) => {
                if diagnostic.code == ErrorCode::ExecutionTimeout {
                    Err(Error::execution_timeout(limits.execution_timeout_ms / 1000))
                } else {
                    Err(Error::code_mode_with_diagnostic(diagnostic))
                }
            },
            ErrorReport::Private => Err(Error::executor_failed("execution worker returned an internal error")),
        },
    }
}

/// The failure a program sees when a host operation fails: the public
/// diagnostic of an error reported to callers, nothing for an internal one.
pub fn invoke_error(error: &Error) -> (r: InvokeError)
    ensures
        reported_to_caller(*error) ==> (r matches InvokeError::Public(d) && d.code@ == code_text(error_code(*error))
            && d.message@ == error_message(*error) && (d.remediation matches Some(x) ==> error_remediation(*error)
            == Some(x@)) && (d.remediation is None ==> error_remediation(*error) is None)),
        !reported_to_caller(*error) ==> r is Private,
{
    if error.is_tool_failure() {
        let message = error.to_text();
        let remediation = match error.remediation() {
            Some(text) => Some(crate::text::copy_str(text)),
            None => None,
        };
        InvokeError::public_with_details(error.code().as_str(), message.as_str(), remediation)
    } else {
        InvokeError::private()
    }
}

/// The operation a program invokes by its tool name, among those the
/// execution may call; any other name is refused as forbidden.
pub fn resolve_invocation(ids: &Vec<OperationId>, operation: &str) -> (r: Result<OperationId, InvokeError>)
    ensures
        r matches Ok(id) ==> operation_name(id) == operation@ && ids@.contains(id),
        r is Err <==> forall|i: int| 0 <= i < ids@.len() ==> operation_name(#[trigger] ids@[i]) != operation@,
        r matches Err(InvokeError::Public(d)) ==> d.code@ == "operation_forbidden"@ && d.message@
            == "operation is not available under the active server policy"@,
        !(r matches Err(InvokeError::Private)),
{
    match find_operation(ids, operation) {
        Some(id) => Ok(id),
        None => {
            let forbidden = Error::forbidden();
            proof {
                assert(reported_to_caller(forbidden));
                assert(error_code(forbidden) == ErrorCode::OperationForbidden);
            }
            Err(invoke_error(&forbidden))
        },
    }
}

} // verus!
