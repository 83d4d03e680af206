use vstd::prelude::*;

use crate::codemode::{
    validate_json_depth, CallOutcome, CallTrace, DiagnosticPhase, Error, ExecuteDiagnostic,
    ExecuteOutput, Limits,
};
use crate::json::{
    decimal_len, fitting_len, json_prefix, json_string_size, json_value_size, string_size,
    truncate_json_string, u64_json_size, value_size, within_depth, JsonValue,
};
use crate::text::{
    add_capped, capped, chars_of, concat3, copy_str, decimal, decimal_string, push_char, push_str,
    trim, trim_spec,
};

verus! {

/// Message that replaces a returned value too large for the output limit.
pub open spec fn output_limit_message() -> Seq<char> {
    "Returned value exceeded the configured output limit."@
}

/// At most this many diagnostics are kept.
pub const MAX_DIAGNOSTICS: usize = 64;

/// Each kept diagnostic message is cut to this many bytes of JSON.
pub const MAX_DIAGNOSTIC_BYTES: usize = 8192;

/// An execution envelope as plain values.
#[verifier::ext_equal]
pub struct EnvelopeView {
    pub success: bool,
    pub output: Option<JsonValue>,
    pub diagnostics: Seq<(DiagnosticPhase, Seq<char>)>,
    pub stdout: Seq<char>,
    pub stderr: Seq<char>,
    pub tool_calls: Seq<(Seq<char>, u64, CallOutcome)>,
    pub truncated: bool,
}

impl View for ExecuteOutput {
    type V = EnvelopeView;

    open spec fn view(&self) -> EnvelopeView {
        EnvelopeView {
            success: self.success,
            output: self.output,
            diagnostics: self.diagnostics@.map_values(|d: ExecuteDiagnostic| (d.phase, d.message@)),
            stdout: self.stdout@,
            stderr: self.stderr@,
            tool_calls: self.tool_calls@.map_values(|c: CallTrace| (c.name@, c.duration_ms, c.outcome)),
            truncated: self.truncated,
        }
    }
}

pub open spec fn bool_size(b: bool) -> nat {
    if b {
        4
    } else {
        5
    }
}

/// Bytes of `{"phase":…,"message":…}`.
pub open spec fn diagnostic_size(d: (DiagnosticPhase, Seq<char>)) -> nat {
    9 + (if d.0 is Transpile {
        11nat
    } else {
        9nat
    }) + 11 + string_size(d.1) + 1
}

/// Bytes of `{"name":…,"duration_ms":…,"outcome":…}`.
pub open spec fn call_size(c: (Seq<char>, u64, CallOutcome)) -> nat {
    8 + string_size(c.0) + 15 + decimal_len(c.1 as nat) + 11 + (if c.2 is Success {
        9nat
    } else {
        7nat
    }) + 1
}

pub open spec fn diagnostics_size(ds: Seq<(DiagnosticPhase, Seq<char>)>) -> nat
    decreases ds.len(),
{
    if ds.len() == 0 {
        0
    } else {
        diagnostics_size(ds.drop_last()) + diagnostic_size(ds.last()) + if ds.len() == 1 {
            0nat
        } else {
            1nat
        }
    }
}

pub open spec fn calls_size(cs: Seq<(Seq<char>, u64, CallOutcome)>) -> nat
    decreases cs.len(),
{
    if cs.len() == 0 {
        0
    } else {
        calls_size(cs.drop_last()) + call_size(cs.last()) + if cs.len() == 1 {
            0nat
        } else {
            1nat
        }
    }
}

/// Bytes of the envelope in compact JSON, fields in declaration order.
pub open spec fn envelope_size(o: EnvelopeView) -> nat {
    11 + bool_size(o.success) + 10 + (match o.output {
        Some(v) => value_size(v),
        None => 4,
    }) + 15 + 2 + diagnostics_size(o.diagnostics) + 10 + string_size(o.stdout) + 10 + string_size(
        o.stderr,
    ) + 14 + 2 + calls_size(o.tool_calls) + 13 + bool_size(o.truncated) + 1
}

/// Serialized size of an envelope, capped at the largest `usize`.
pub fn serialized_envelope_size(o: &ExecuteOutput) -> (n: usize)
    ensures
        n == capped(envelope_size(o@) as int),
{
    let ghost v = o@;
    let mut n: usize = 11;
    n = add_capped(n, if o.success { 4 } else { 5 });
    n = add_capped(n, 10);
    let out = match &o.output {
        Some(value) => json_value_size(value),
        None => 4,
    };
    n = add_capped(n, out);
    n = add_capped(n, 17);
    let mut i: usize = 0;
    let ghost ds = v.diagnostics;
    assert(ds.subrange(0, 0) =~= Seq::<(DiagnosticPhase, Seq<char>)>::empty());
    while i < o.diagnostics.len()
        invariant
            ds == o@.diagnostics,
            i <= ds.len(),
            n == capped(
                11 + bool_size(o.success) + 10 + (match o.output {
                    Some(v) => value_size(v),
                    None => 4,
                }) + 17 + diagnostics_size(ds.subrange(0, i as int)) as int,
            ),
        decreases ds.len() - i,
    {
        assert(ds.subrange(0, i + 1).drop_last() =~= ds.subrange(0, i as int));
        assert(ds[i as int] == (o.diagnostics@[i as int].phase, o.diagnostics@[i as int].message@));
        if i > 0 {
            n = add_capped(n, 1);
        }
        let d = &o.diagnostics[i];
        n = add_capped(n, 9);
        n = add_capped(n, if d.phase == DiagnosticPhase::Transpile { 11 } else { 9 });
        n = add_capped(n, 11);
        n = add_capped(n, json_string_size(d.message.as_str()));
        n = add_capped(n, 1);
        i = i + 1;
    }
    assert(ds.subrange(0, ds.len() as int) =~= ds);
    n = add_capped(n, 10);
    n = add_capped(n, json_string_size(o.stdout.as_str()));
    n = add_capped(n, 10);
    n = add_capped(n, json_string_size(o.stderr.as_str()));
    n = add_capped(n, 16);
    let ghost cs = v.tool_calls;
    let ghost before_calls = n as int;
    let mut j: usize = 0;
    assert(cs.subrange(0, 0) =~= Seq::<(Seq<char>, u64, CallOutcome)>::empty());
    while j < o.tool_calls.len()
        invariant
            cs == o@.tool_calls,
            j <= cs.len(),
            n == capped(
                11 + bool_size(o.success) + 10 + (match o.output {
                    Some(v) => value_size(v),
                    None => 4,
                }) + 17 + diagnostics_size(o@.diagnostics) + 10 + string_size(o.stdout@) + 10
                    + string_size(o.stderr@) + 16 + calls_size(cs.subrange(0, j as int)) as int,
            ),
        decreases cs.len() - j,
    {
        assert(cs.subrange(0, j + 1).drop_last() =~= cs.subrange(0, j as int));
        assert(cs[j as int] == (
            o.tool_calls@[j as int].name@,
            o.tool_calls@[j as int].duration_ms,
            o.tool_calls@[j as int].outcome,
        ));
        if j > 0 {
            n = add_capped(n, 1);
        }
        let c = &o.tool_calls[j];
        n = add_capped(n, 8);
        n = add_capped(n, json_string_size(c.name.as_str()));
        n = add_capped(n, 15);
        n = add_capped(n, u64_json_size(c.duration_ms));
        n = add_capped(n, 11);
        n = add_capped(n, if c.outcome == CallOutcome::Success { 9 } else { 7 });
        n = add_capped(n, 1);
        j = j + 1;
    }
    assert(cs.subrange(0, cs.len() as int) =~= cs);
    n = add_capped(n, 13);
    n = add_capped(n, if o.truncated { 4 } else { 5 });
    n = add_capped(n, 1);
    n
}

/// The envelope's serialized size, counted the way a saturating byte counter
/// counts it, exceeds `maximum`.
pub open spec fn too_large(o: EnvelopeView, maximum: int) -> bool {
    capped(envelope_size(o) as int) > maximum
}

/// `o` with other standard output and error text.
pub open spec fn with_streams(o: EnvelopeView, stdout: Seq<char>, stderr: Seq<char>) -> EnvelopeView {
    EnvelopeView {
        success: o.success,
        output: o.output,
        diagnostics: o.diagnostics,
        stdout,
        stderr,
        tool_calls: o.tool_calls,
        truncated: o.truncated,
    }
}

/// The diagnostics kept: the first 64.
pub open spec fn kept_diagnostics(ds: Seq<(DiagnosticPhase, Seq<char>)>) -> Seq<(DiagnosticPhase, Seq<char>)> {
    if ds.len() > 64 {
        ds.subrange(0, 64)
    } else {
        ds
    }
}

/// A diagnostic with its message cut to 8 KiB of JSON.
pub open spec fn clip_message(d: (DiagnosticPhase, Seq<char>)) -> (DiagnosticPhase, Seq<char>) {
    (d.0, json_prefix(d.1, 8192))
}

/// The first step of bounding: at most 64 diagnostics of at most 8 KiB each;
/// the envelope is marked truncated when either cut removes something.
pub open spec fn clip_diagnostics(o: EnvelopeView) -> EnvelopeView {
    let kept = kept_diagnostics(o.diagnostics);
    EnvelopeView {
        success: o.success,
        output: o.output,
        diagnostics: kept.map_values(|d: (DiagnosticPhase, Seq<char>)| clip_message(d)),
        stdout: o.stdout,
        stderr: o.stderr,
        tool_calls: o.tool_calls,
        truncated: o.truncated || o.diagnostics.len() > 64 || exists|i: int|
            0 <= i < kept.len() && fitting_len(#[trigger] kept[i].1, 8192) < kept[i].1.len(),
    }
}

/// Without its streams and still too large, the envelope gives up its
/// returned value, which the output-limit message replaces.
pub open spec fn drop_output(o: EnvelopeView, maximum: int) -> EnvelopeView {
    if too_large(o, maximum) && o.output is Some {
        EnvelopeView {
            success: false,
            output: None,
            diagnostics: o.diagnostics,
            stdout: o.stdout,
            stderr: output_limit_message(),
            tool_calls: o.tool_calls,
            truncated: o.truncated,
        }
    } else {
        o
    }
}

/// Diagnostics are dropped from the end while the envelope is too large.
pub open spec fn pop_diagnostics(o: EnvelopeView, maximum: int) -> EnvelopeView
    decreases o.diagnostics.len(),
{
    if too_large(o, maximum) && o.diagnostics.len() > 0 {
        pop_diagnostics(
            EnvelopeView {
                success: o.success,
                output: o.output,
                diagnostics: o.diagnostics.drop_last(),
                stdout: o.stdout,
                stderr: o.stderr,
                tool_calls: o.tool_calls,
                truncated: o.truncated,
            },
            maximum,
        )
    } else {
        o
    }
}

/// The call trace is dropped when the envelope is still too large.
pub open spec fn drop_calls(o: EnvelopeView, maximum: int) -> EnvelopeView {
    if too_large(o, maximum) {
        EnvelopeView {
            success: o.success,
            output: o.output,
            diagnostics: o.diagnostics,
            stdout: o.stdout,
            stderr: o.stderr,
            tool_calls: Seq::empty(),
            truncated: o.truncated,
        }
    } else {
        o
    }
}

/// The streams come back: standard error after the envelope's own, if any,
/// on a line of its own.
pub open spec fn restore_streams(o: EnvelopeView, stdout: Seq<char>, stderr: Seq<char>) -> EnvelopeView {
    with_streams(
        o,
        stdout,
        if o.stderr.len() == 0 {
            stderr
        } else if stderr.len() > 0 {
            o.stderr + seq!['\n'] + stderr
        } else {
            o.stderr
        },
    )
}

pub open spec fn min_int(a: int, b: int) -> int {
    if a <= b {
        a
    } else {
        b
    }
}

/// The byte budgets of standard output and error: half of what is available
/// each, and what one leaves unused goes to the other, standard output first.
pub open spec fn stream_budgets(available: int, out_size: int, err_size: int) -> (int, int) {
    let half = available / 2;
    let ob = min_int(out_size, half);
    let eb = min_int(err_size, half);
    let remaining = available - (ob + eb);
    let extra = min_int(out_size - ob, remaining);
    (ob + extra, eb + min_int(err_size - eb, remaining - extra))
}

/// The stream budgets use all the room the streams need: together they are
/// the room available or the streams' whole size, whichever is smaller;
/// neither exceeds its stream; and each stream gets at least half the room
/// (or all it needs).
pub proof fn lemma_stream_budgets_fill_room(available: int, out_size: int, err_size: int)
    requires
        available >= 0,
        out_size >= 0,
        err_size >= 0,
    ensures
        ({
            let b = stream_budgets(available, out_size, err_size);
            &&& 0 <= b.0 <= out_size
            &&& 0 <= b.1 <= err_size
            &&& b.0 + b.1 == if available <= out_size + err_size {
                available
            } else {
                out_size + err_size
            }
            &&& b.0 >= if out_size <= available / 2 { out_size } else { available / 2 }
            &&& b.1 >= if err_size <= available / 2 { err_size } else { available / 2 }
        }),
{
}

pub open spec fn envelope_too_small(maximum: int) -> Seq<char> {
    "the configured "@ + decimal(maximum as nat) + " byte output limit is too small for an execution envelope"@
}

/// The streams cut to the room the rest of the envelope leaves; cleared when
/// even that does not fit; an error when nothing fits.
pub open spec fn truncate_streams(o: EnvelopeView, maximum: int) -> Result<EnvelopeView, Seq<char>> {
    let used = capped(envelope_size(with_streams(o, Seq::empty(), Seq::empty())) as int);
    let available = if used >= maximum {
        0
    } else {
        maximum - used
    };
    let budgets = stream_budgets(
        available,
        capped(string_size(o.stdout) as int) - 2,
        capped(string_size(o.stderr) as int) - 2,
    );
    let t = with_streams(o, json_prefix(o.stdout, budgets.0), json_prefix(o.stderr, budgets.1));
    let t2 = if too_large(t, maximum) {
        with_streams(t, Seq::empty(), Seq::empty())
    } else {
        t
    };
    if too_large(t2, maximum) {
        Err(envelope_too_small(maximum))
    } else {
        Ok(t2)
    }
}

/// The envelope bounded to `maximum` bytes of JSON, or the error text.
pub open spec fn bounded_envelope(o: EnvelopeView, maximum: int) -> Result<EnvelopeView, Seq<char>> {
    let c = clip_diagnostics(o);
    if !too_large(c, maximum) {
        Ok(c)
    } else {
        let s = EnvelopeView {
            success: c.success,
            output: c.output,
            diagnostics: c.diagnostics,
            stdout: Seq::empty(),
            stderr: Seq::empty(),
            tool_calls: c.tool_calls,
            truncated: true,
        };
        let shrunk = drop_calls(pop_diagnostics(drop_output(s, maximum), maximum), maximum);
        truncate_streams(restore_streams(shrunk, c.stdout, c.stderr), maximum)
    }
}

/// The part of a string that fits a budget is no longer than the string.
pub proof fn lemma_fitting_len_bound(s: Seq<char>, budget: int)
    ensures
        fitting_len(s, budget) <= s.len(),
    decreases s.len(),
{
    if s.len() > 0 {
        lemma_fitting_len_bound(s.drop_first(), budget - crate::json::escaped_width(s[0]));
    }
}

fn clip_diagnostics_in(o: &mut ExecuteOutput)
    ensures
        final(o)@ == clip_diagnostics(old(o)@),
{
    let ghost v = o@;
    let ghost kept = kept_diagnostics(v.diagnostics);
    let n = if o.diagnostics.len() > MAX_DIAGNOSTICS {
        MAX_DIAGNOSTICS
    } else {
        o.diagnostics.len()
    };
    assert(kept.len() == n);
    let mut shortened = false;
    let mut clipped: Vec<ExecuteDiagnostic> = Vec::new();
    let mut i: usize = 0;
    while i < n
        invariant
            v == old(o)@,
            *o == *old(o),
            kept == kept_diagnostics(v.diagnostics),
            n == kept.len(),
            n <= o.diagnostics@.len(),
            i <= n,
            clipped@.len() == i,
            forall|j: int| 0 <= j < i ==> (#[trigger] clipped@[j]).phase == kept[j].0 && clipped@[j].message@ == json_prefix(kept[j].1, 8192),
            shortened <==> exists|j: int| 0 <= j < i && fitting_len(#[trigger] kept[j].1, 8192) < kept[j].1.len(),
        decreases n - i,
    {
        let d = &o.diagnostics[i];
        assert(kept[i as int] == (d.phase, d.message@));
        let mut message = copy_str(d.message.as_str());
        let before = message.unicode_len();
        truncate_json_string(&mut message, MAX_DIAGNOSTIC_BYTES);
        proof {
            lemma_fitting_len_bound(kept[i as int].1, 8192);
        }
        if message.unicode_len() < before {
            shortened = true;
        }
        clipped.push(ExecuteDiagnostic { phase: d.phase, message });
        i = i + 1;
    }
    let more = o.diagnostics.len() > MAX_DIAGNOSTICS;
    o.diagnostics = clipped;
    o.truncated = o.truncated || more || shortened;
    assert(o@.diagnostics =~= kept.map_values(|d: (DiagnosticPhase, Seq<char>)| clip_message(d)));
}

fn too_small_error(maximum: usize) -> (e: Error)
    ensures
        e matches Error::Runtime(m) && m@ == envelope_too_small(maximum as int),
{
    let n = decimal_string(maximum as u64);
    Error::Runtime(
        concat3("the configured ", n.as_str(), " byte output limit is too small for an execution envelope"),
    )
}

fn stream_budget_values(available: usize, out_size: usize, err_size: usize) -> (b: (usize, usize))
    ensures
        b.0 == stream_budgets(available as int, out_size as int, err_size as int).0,
        b.1 == stream_budgets(available as int, out_size as int, err_size as int).1,
{
    let half = available / 2;
    let mut ob = if out_size <= half {
        out_size
    } else {
        half
    };
    let eb = if err_size <= half {
        err_size
    } else {
        half
    };
    let mut remaining = available - (ob + eb);
    let extra = if out_size - ob <= remaining {
        out_size - ob
    } else {
        remaining
    };
    ob = ob + extra;
    remaining = remaining - extra;
    let eb2 = eb + if err_size - eb <= remaining {
        err_size - eb
    } else {
        remaining
    };
    (ob, eb2)
}

fn truncate_streams_in(o: &mut ExecuteOutput, maximum: usize) -> (r: Result<(), Error>)
    ensures
        match (r, truncate_streams(old(o)@, maximum as int)) {
            (Ok(()), Ok(v)) => final(o)@ == v,
            (Err(Error::Runtime(m)), Err(t)) => m@ == t,
            _ => false,
        },
{
    let ghost v = o@;
    let stdout = copy_str(o.stdout.as_str());
    let stderr = copy_str(o.stderr.as_str());
    o.stdout = String::new();
    o.stderr = String::new();
    assert(o@ =~= with_streams(v, Seq::empty(), Seq::empty()));
    let used = serialized_envelope_size(o);
    let available: usize = if used >= maximum {
        0
    } else {
        maximum - used
    };
    let out_size = json_string_size(stdout.as_str()) - 2;
    let err_size = json_string_size(stderr.as_str()) - 2;
    let (ob, eb) = stream_budget_values(available, out_size, err_size);
    let ghost budgets = stream_budgets(available as int, out_size as int, err_size as int);
    let mut out = stdout;
    let mut err = stderr;
    truncate_json_string(&mut out, ob);
    truncate_json_string(&mut err, eb);
    o.stdout = out;
    o.stderr = err;
    let ghost t = with_streams(v, json_prefix(v.stdout, budgets.0), json_prefix(v.stderr, budgets.1));
    assert(o@ =~= t);
    let size1 = serialized_envelope_size(o);
    assert(size1 > maximum <==> too_large(t, maximum as int));
    if size1 > maximum {
        o.stdout = String::new();
        o.stderr = String::new();
        assert(o@ =~= with_streams(t, Seq::empty(), Seq::empty()));
    }
    let ghost t2 = if too_large(t, maximum as int) {
        with_streams(t, Seq::empty(), Seq::empty())
    } else {
        t
    };
    assert(o@ == t2);
    let ghost spec = truncate_streams(v, maximum as int);
    if serialized_envelope_size(o) > maximum {
        assert(spec == Err::<EnvelopeView, Seq<char>>(envelope_too_small(maximum as int)));
        return Err(too_small_error(maximum));
    }
    assert(spec == Ok::<EnvelopeView, Seq<char>>(t2));
    Ok(())
}

fn shrink_envelope(output: &mut ExecuteOutput, maximum: usize)
    ensures
        final(output)@ == drop_calls(
            pop_diagnostics(drop_output(old(output)@, maximum as int), maximum as int),
            maximum as int,
        ),
{
    let ghost s = output@;
    let size0 = serialized_envelope_size(output);
    assert(size0 > maximum <==> too_large(s, maximum as int));
    if size0 > maximum && output.output.is_some() {
        output.success = false;
        output.output = None;
        output.stderr = copy_str("Returned value exceeded the configured output limit.");
        assert(output@ =~= drop_output(s, maximum as int));
    } else {
        assert(output@ =~= drop_output(s, maximum as int));
    }
    let ghost d = output@;
    while serialized_envelope_size(output) > maximum && output.diagnostics.len() > 0
        invariant
            pop_diagnostics(output@, maximum as int) == pop_diagnostics(d, maximum as int),
        decreases output.diagnostics@.len(),
    {
        let ghost before = output@;
        output.diagnostics.pop();
        assert(output@ =~= EnvelopeView {
            success: before.success,
            output: before.output,
            diagnostics: before.diagnostics.drop_last(),
            stdout: before.stdout,
            stderr: before.stderr,
            tool_calls: before.tool_calls,
            truncated: before.truncated,
        });
    }
    assert(output@ == pop_diagnostics(d, maximum as int));
    let ghost p = output@;
    if serialized_envelope_size(output) > maximum {
        output.tool_calls = Vec::new();
    }
    assert(output@ =~= drop_calls(p, maximum as int));
}

/// Bounds an execution envelope to `maximum` bytes of JSON: diagnostics are
/// capped first; then, only if it is still too large, the returned value,
/// diagnostics from the end and the call trace give way in turn, and the
/// streams are cut to the room left.
pub fn bound_output(output: ExecuteOutput, maximum: usize) -> (r: Result<ExecuteOutput, Error>)
    ensures
        match (r, bounded_envelope(output@, maximum as int)) {
            (Ok(o), Ok(v)) => o@ == v,
            (Err(Error::Runtime(m)), Err(t)) => m@ == t,
            _ => false,
        },
        r matches Ok(o) ==> !too_large(o@, maximum as int),
{
    let ghost v0 = output@;
    let mut output = output;
    clip_diagnostics_in(&mut output);
    let ghost c = output@;
    if serialized_envelope_size(&output) <= maximum {
        return Ok(output);
    }
    output.truncated = true;
    let stdout = copy_str(output.stdout.as_str());
    let stderr = copy_str(output.stderr.as_str());
    output.stdout = String::new();
    output.stderr = String::new();
    let ghost s = output@;
    assert(s =~= EnvelopeView {
        success: c.success,
        output: c.output,
        diagnostics: c.diagnostics,
        stdout: Seq::empty(),
        stderr: Seq::empty(),
        tool_calls: c.tool_calls,
        truncated: true,
    });
    shrink_envelope(&mut output, maximum);
    let ghost q = output@;
    output.stdout = stdout;
    if output.stderr.unicode_len() == 0 {
        output.stderr = stderr;
    } else if stderr.unicode_len() > 0 {
        push_char(&mut output.stderr, '\n');
        push_str(&mut output.stderr, stderr.as_str());
    }
    assert(output@ =~= restore_streams(q, c.stdout, c.stderr));
    match truncate_streams_in(&mut output, maximum) {
        Ok(()) => Ok(output),
        Err(e) => Err(e),
    }
}

/// `s` with every occurrence of `pat`, taken left to right without overlap,
/// replaced by `rep` (`str::replace`).
pub open spec fn replace_all(s: Seq<char>, pat: Seq<char>, rep: Seq<char>) -> Seq<char>
    decreases s.len(),
{
    if pat.len() == 0 || s.len() < pat.len() {
        s
    } else if s.subrange(0, pat.len() as int) == pat {
        rep + replace_all(s.subrange(pat.len() as int, s.len() as int), pat, rep)
    } else {
        seq![s[0]] + replace_all(s.drop_first(), pat, rep)
    }
}

/// `cs[i..]` starts with `pat`.
fn occurs_at(cs: &Vec<char>, i: usize, pat: &Vec<char>) -> (b: bool)
    requires
        i <= cs@.len(),
    ensures
        b == (i + pat@.len() <= cs@.len() && cs@.subrange(i as int, i + pat@.len()) == pat@),
{
    if pat.len() > cs.len() - i {
        return false;
    }
    let mut k: usize = 0;
    while k < pat.len()
        invariant
            i + pat@.len() <= cs@.len(),
            cs@.len() <= usize::MAX,
            k <= pat@.len(),
            forall|j: int| 0 <= j < k ==> cs@[i + j] == pat@[j],
        decreases pat@.len() - k,
    {
        if cs[i + k] != pat[k] {
            assert(cs@.subrange(i as int, i + pat@.len())[k as int] != pat@[k as int]);
            return false;
        }
        k = k + 1;
    }
    assert(cs@.subrange(i as int, i + pat@.len()) =~= pat@);
    true
}

/// Replaces every occurrence of `pat` in `s` by `rep`.
pub fn replace_all_in(s: &str, pat: &str, rep: &str) -> (r: String)
    ensures
        r@ == replace_all(s@, pat@, rep@),
{
    let cs = chars_of(s);
    let ps = chars_of(pat);
    let n = cs.len();
    let m = ps.len();
    let mut out = String::new();
    if m == 0 {
        return copy_str(s);
    }
    let mut i: usize = 0;
    assert(cs@.subrange(0, n as int) =~= cs@);
    while i < n
        invariant
            cs@ == s@,
            ps@ == pat@,
            n == cs@.len(),
            m == ps@.len(),
            m > 0,
            i <= n,
            out@ + replace_all(cs@.subrange(i as int, n as int), pat@, rep@) == replace_all(s@, pat@, rep@),
        decreases n - i,
    {
        let ghost rest = cs@.subrange(i as int, n as int);
        let ghost before = out@;
        if occurs_at(&cs, i, &ps) {
            assert(rest.subrange(0, m as int) =~= cs@.subrange(i as int, i + m));
            assert(rest.subrange(m as int, rest.len() as int) =~= cs@.subrange(i + m, n as int));
            push_str(&mut out, rep);
            assert(out@ + replace_all(cs@.subrange(i + m, n as int), pat@, rep@) =~= before
                + replace_all(rest, pat@, rep@));
            i = i + m;
        } else {
            if n - i >= m {
                assert(rest.subrange(0, m as int) =~= cs@.subrange(i as int, i + m));
                assert(rest.drop_first() =~= cs@.subrange(i + 1, n as int));
                push_char(&mut out, cs[i]);
                assert(out@ + replace_all(cs@.subrange(i + 1, n as int), pat@, rep@) =~= before
                    + replace_all(rest, pat@, rep@));
                i = i + 1;
            } else {
                let tail = s.substring_char(i, n);
                push_str(&mut out, tail);
                assert(out@ =~= before + rest);
                i = n;
                assert(cs@.subrange(n as int, n as int) =~= Seq::<char>::empty());
                assert(out@ + Seq::<char>::empty() =~= out@);
            }
        }
    }
    assert(cs@.subrange(n as int, n as int) =~= Seq::<char>::empty());
    assert(out@ + Seq::<char>::empty() =~= out@);
    out
}

/// Runtime text with the internal module names replaced by `execute.ts`,
/// surrounding whitespace removed.
pub open spec fn sanitized(value: Seq<char>) -> Seq<char> {
    trim_spec(
        replace_all(
            replace_all(value, "file:///execute.js"@, "execute.ts"@),
            "file:///execute.ts"@,
            "execute.ts"@,
        ),
    )
}

/// Cleans a runtime or transpiler message for the caller.
pub fn sanitize_runtime_text(value: &str) -> (r: String)
    ensures
        r@ == sanitized(value@),
{
    let once = replace_all_in(value, "file:///execute.js", "execute.ts");
    let twice = replace_all_in(once.as_str(), "file:///execute.ts", "execute.ts");
    trim(twice.as_str())
}

/// The envelope of a program that could not be transpiled.
pub fn transpile_failure(message: &str) -> (o: ExecuteOutput)
    ensures
        o@ == (EnvelopeView {
            success: false,
            output: None,
            diagnostics: seq![(DiagnosticPhase::Transpile, sanitized(message@))],
            stdout: Seq::empty(),
            stderr: Seq::empty(),
            tool_calls: Seq::empty(),
            truncated: false,
        }),
{
    let mut diagnostics: Vec<ExecuteDiagnostic> = Vec::new();
    diagnostics.push(ExecuteDiagnostic { phase: DiagnosticPhase::Transpile, message: sanitize_runtime_text(message) });
    let o = ExecuteOutput {
        success: false,
        output: None,
        diagnostics,
        stdout: String::new(),
        stderr: String::new(),
        tool_calls: Vec::new(),
        truncated: false,
    };
    assert(o@ =~= EnvelopeView {
        success: false,
        output: None,
        diagnostics: seq![(DiagnosticPhase::Transpile, sanitized(message@))],
        stdout: Seq::empty(),
        stderr: Seq::empty(),
        tool_calls: Seq::empty(),
        truncated: false,
    });
    o
}

/// What the JavaScript runtime reports of one execution.
pub struct RuntimeExecution {
    pub success: bool,
    pub runtime_error: Option<String>,
    pub output: Option<JsonValue>,
    pub stdout: String,
    pub stderr: String,
    pub calls: Vec<CallTrace>,
    pub truncated: bool,
}

/// The diagnostics of a finished execution: its runtime error, or a note
/// that `run()` returned nothing JSON can hold.
pub open spec fn execution_diagnostics(runtime_error: Option<Seq<char>>, has_output: bool) -> Seq<(DiagnosticPhase, Seq<char>)> {
    match runtime_error {
        Some(m) => seq![(DiagnosticPhase::Runtime, sanitized(m))],
        None => if has_output {
            Seq::empty()
        } else {
            seq![(DiagnosticPhase::Runtime, "run() did not return a JSON-serializable value"@)]
        },
    }
}

/// The envelope of a finished execution, before bounding.
pub open spec fn execution_envelope(e: RuntimeExecution) -> EnvelopeView {
    EnvelopeView {
        success: e.success && e.output is Some,
        output: e.output,
        diagnostics: execution_diagnostics(
            match e.runtime_error {
                Some(m) => Some(m@),
                None => None,
            },
            e.output is Some,
        ),
        stdout: e.stdout@,
        stderr: e.stderr@,
        tool_calls: e.calls@.map_values(|c: CallTrace| (c.name@, c.duration_ms, c.outcome)),
        truncated: e.truncated,
    }
}

/// Turns what the runtime reported into the bounded envelope: a returned
/// value nested deeper than the limit is an error.
pub fn map_execution(execution: RuntimeExecution, limits: Limits) -> (r: Result<ExecuteOutput, Error>)
    ensures
        execution.output matches Some(v) && !within_depth(v, limits.max_json_depth as int) ==> r
            == Err::<ExecuteOutput, Error>(Error::JsonDepthExceeded { maximum: limits.max_json_depth }),
        (execution.output matches Some(v) ==> within_depth(v, limits.max_json_depth as int)) ==> match (
            r,
            bounded_envelope(execution_envelope(execution), limits.max_output_bytes as int),
        ) {
            (Ok(o), Ok(v)) => o@ == v,
            (Err(Error::Runtime(m)), Err(t)) => m@ == t,
            _ => false,
        },
{
    let ghost whole = execution_envelope(execution);
    if let Some(output) = &execution.output {
        match validate_json_depth(output, limits.max_json_depth) {
            Ok(()) => {},
            Err(e) => {
                return Err(e);
            },
        }
    }
    let mut diagnostics: Vec<ExecuteDiagnostic> = Vec::new();
    match &execution.runtime_error {
        Some(message) => {
            diagnostics.push(ExecuteDiagnostic { phase: DiagnosticPhase::Runtime, message: sanitize_runtime_text(message.as_str()) });
        },
        None => {
            if execution.output.is_none() {
                diagnostics.push(
                    ExecuteDiagnostic {
                        phase: DiagnosticPhase::Runtime,
                        message: copy_str("run() did not return a JSON-serializable value"),
                    },
                );
            }
        },
    }
    let has_output = execution.output.is_some();
    let output = ExecuteOutput {
        success: execution.success && has_output,
        output: execution.output,
        diagnostics,
        stdout: execution.stdout,
        stderr: execution.stderr,
        tool_calls: execution.calls,
        truncated: execution.truncated,
    };
    assert(output@ =~= whole);
    bound_output(output, limits.max_output_bytes)
}

} // verus!
