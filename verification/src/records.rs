use vstd::prelude::*;

use base64ct::Encoding;

use crate::dispatch::{bounded, out_of_bounds};
use crate::errors::{Error, RequestError};
use crate::json::{decimal_len, json_string_size, json_value_size, string_size, u64_json_size, value_size, JsonValue};
use crate::text::{add_capped, byte_len, capped, chars_of, concat2, copy_str, decimal, utf8_size};

verus! {

pub const MAX_READ_RECORDS: usize = 100;

pub const MAX_READ_BYTES: usize = 262144;

pub const MIN_READ_OUTPUT_BYTES: usize = 1024;

pub const DEFAULT_READ_OUTPUT_BYTES: usize = 524288;

pub const MAX_READ_OUTPUT_BYTES: usize = 2097152;

pub const MAX_WAIT_SECONDS: u32 = 25;

pub const MAX_APPEND_RECORDS: usize = 100;

pub const MAX_APPEND_METERED_BYTES: usize = 1048576;

pub const MAX_APPEND_REQUEST_BYTES: usize = 2097152;

/// The limits of one read.
#[derive(Clone, Copy)]
pub struct ReadBounds {
    pub count: usize,
    pub bytes: usize,
    pub output_bytes: usize,
}

pub open spec fn invalid_arguments(e: Error, m: Seq<char>) -> bool {
    e matches Error::Request(RequestError::InvalidArguments(t)) && t@ == m
}

pub open spec fn output_bytes_message() -> Seq<char> {
    "max_output_bytes must be between 1024 and 2097152"@
}

/// Accepts a response budget between 1 KiB and 2 MiB.
pub fn bounded_read_output_bytes(value: usize) -> (r: Result<usize, Error>)
    ensures
        r is Ok <==> MIN_READ_OUTPUT_BYTES <= value <= MAX_READ_OUTPUT_BYTES,
        r matches Ok(v) ==> v == value,
        r matches Err(e) ==> invalid_arguments(e, output_bytes_message()),
{
    if value < MIN_READ_OUTPUT_BYTES || value > MAX_READ_OUTPUT_BYTES {
        return Err(Error::Request(RequestError::InvalidArguments(copy_str("max_output_bytes must be between 1024 and 2097152"))));
    }
    Ok(value)
}

/// Accepts a wait between 1 and 25 seconds.
pub fn bounded_wait_timeout(value: u32) -> (r: Result<u32, Error>)
    ensures
        r is Ok <==> 1 <= value <= MAX_WAIT_SECONDS,
        r matches Ok(v) ==> v == value,
        r matches Err(e) ==> invalid_arguments(e, "timeout_seconds must be between 1 and 25"@),
{
    if value < 1 || value > MAX_WAIT_SECONDS {
        return Err(Error::Request(RequestError::InvalidArguments(copy_str("timeout_seconds must be between 1 and 25"))));
    }
    Ok(value)
}

/// Seconds a wait may run past its timeout before the client stops waiting.
pub const WAIT_RESPONSE_GRACE_SECONDS: u64 = 1;

/// How long the client waits for a read that waits `timeout_seconds` on the
/// service.
pub fn wait_deadline_seconds(timeout_seconds: u32) -> (d: u64)
    ensures
        d == timeout_seconds + WAIT_RESPONSE_GRACE_SECONDS,
{
    timeout_seconds as u64 + WAIT_RESPONSE_GRACE_SECONDS
}

/// The limits of a read request: each given limit checked in turn, the
/// missing ones at their defaults.
pub fn read_bounds(count: Option<usize>, bytes: Option<usize>, output_bytes: Option<usize>) -> (r: Result<ReadBounds, Error>)
    ensures
        ({
            let c = match count { Some(v) => v, None => MAX_READ_RECORDS };
            let b = match bytes { Some(v) => v, None => MAX_READ_BYTES };
            let o = match output_bytes { Some(v) => v, None => DEFAULT_READ_OUTPUT_BYTES };
            &&& !(1 <= c <= MAX_READ_RECORDS) ==> (r matches Err(e) && invalid_arguments(e, out_of_bounds("limit"@, MAX_READ_RECORDS)))
            &&& (1 <= c <= MAX_READ_RECORDS) && !(1 <= b <= MAX_READ_BYTES) ==> (r matches Err(e) && invalid_arguments(e, out_of_bounds("max_bytes"@, MAX_READ_BYTES)))
            &&& (1 <= c <= MAX_READ_RECORDS) && (1 <= b <= MAX_READ_BYTES) && !(MIN_READ_OUTPUT_BYTES <= o <= MAX_READ_OUTPUT_BYTES) ==> (r matches Err(e) && invalid_arguments(e, output_bytes_message()))
            &&& (1 <= c <= MAX_READ_RECORDS) && (1 <= b <= MAX_READ_BYTES) && (MIN_READ_OUTPUT_BYTES <= o <= MAX_READ_OUTPUT_BYTES) ==> (r matches Ok(bounds) && bounds.count == c && bounds.bytes == b && bounds.output_bytes == o)
        }),
{
    let c = bounded(
        match count {
            Some(v) => v,
            None => MAX_READ_RECORDS,
        },
        MAX_READ_RECORDS,
        "limit",
    )?;
    let b = bounded(
        match bytes {
            Some(v) => v,
            None => MAX_READ_BYTES,
        },
        MAX_READ_BYTES,
        "max_bytes",
    )?;
    let o = bounded_read_output_bytes(
        match output_bytes {
            Some(v) => v,
            None => DEFAULT_READ_OUTPUT_BYTES,
        },
    )?;
    Ok(ReadBounds { count: c, bytes: b, output_bytes: o })
}

/// Where a read starts.
#[derive(Clone, Copy)]
pub enum ReadPosition {
    SeqNum { value: u64 },
    Timestamp { value: u64 },
    TailOffset { value: u64 },
}

impl ReadPosition {
    /// The next sequence number to report when a read returns nothing: known
    /// only for a read from a sequence number.
    pub fn fallback_next_seq_num(self) -> (r: Option<u64>)
        ensures
            self matches ReadPosition::SeqNum { value } ==> r == Some(value),
            !(self is SeqNum) ==> r is None,
    {
        match self {
            ReadPosition::SeqNum { value } => Some(value),
            _ => None,
        }
    }
}

/// A position in a stream.
#[derive(Clone, Copy)]
pub struct PositionOutput {
    pub seq_num: u64,
    pub timestamp: u64,
}

/// The read reached the tail: there is a tail, and the last record read (if
/// any) is the one just before it.
pub open spec fn caught_up(last_seq_num: Option<u64>, tail: Option<PositionOutput>) -> bool {
    match tail {
        Some(t) => match last_seq_num {
            Some(s) => s < u64::MAX && s + 1 == t.seq_num,
            None => true,
        },
        None => false,
    }
}

pub fn batch_caught_up(last_seq_num: Option<u64>, tail: Option<PositionOutput>) -> (b: bool)
    ensures
        b == caught_up(last_seq_num, tail),
{
    match tail {
        Some(t) => match last_seq_num {
            Some(s) => s < u64::MAX && s + 1 == t.seq_num,
            None => true,
        },
        None => false,
    }
}

/// The sequence number to read from next: after the last record read, else
/// the fallback, else the tail's.
pub open spec fn next_seq_num(last_seq_num: Option<u64>, fallback: Option<u64>, tail_seq_num: Option<u64>) -> Option<u64> {
    match last_seq_num {
        Some(s) => if s < u64::MAX {
            Some((s + 1) as u64)
        } else {
            tail_seq_num
        },
        None => match fallback {
            Some(f) => Some(f),
            None => tail_seq_num,
        },
    }
}

pub fn next_sequence_num(last_seq_num: Option<u64>, fallback: Option<u64>, tail_seq_num: Option<u64>) -> (r: Option<u64>)
    ensures
        r == next_seq_num(last_seq_num, fallback, tail_seq_num),
{
    match last_seq_num {
        Some(s) => if s < u64::MAX {
            Some(s + 1)
        } else {
            tail_seq_num
        },
        None => match fallback {
            Some(f) => Some(f),
            None => tail_seq_num,
        },
    }
}

/// Bytes as a response carries them: UTF-8 text as is, anything else in
/// Base64.
pub enum EncodedBytes {
    Utf8(String),
    Base64(String),
}

/// The text `bytes` decode to as UTF-8, when they are valid UTF-8
/// (`std::str::from_utf8`).
pub uninterp spec fn utf8_decoded(bytes: Seq<u8>) -> Option<Seq<char>>;

/// The padded standard Base64 text of `bytes`
/// (`base64ct::Base64::encode_string`).
pub uninterp spec fn base64_text(bytes: Seq<u8>) -> Seq<char>;

/// The bytes that padded standard Base64 text decodes to, when it is valid
/// (`base64ct::Base64::decode_vec`).
pub uninterp spec fn base64_decoded(text: Seq<char>) -> Option<Seq<u8>>;

/// The UTF-8 bytes of `text` (`String::into_bytes`).
pub uninterp spec fn utf8_encoded(text: Seq<char>) -> Seq<u8>;

/// Decodes `bytes` as UTF-8 with `std::str::from_utf8`. The contract names
/// the outcome as a function of the bytes; it does not state UTF-8 itself,
/// only that the text decoded holds exactly those bytes.
#[verifier::external_body]
fn decode_utf8(bytes: &[u8]) -> (r: Option<String>)
    ensures
        r matches Some(s) ==> utf8_decoded(bytes@) == Some(s@),
        r matches Some(s) ==> utf8_encoded(s@) == bytes@,
        r is None ==> utf8_decoded(bytes@) is None,
{
    match std::str::from_utf8(bytes) {
        Ok(text) => Some(text.to_owned()),
        Err(_) => None,
    }
}

/// Encodes `bytes` with `base64ct::Base64::encode_string`, which panics for
/// inputs longer than a quarter of the address space; the contract names the
/// text as a function of the bytes and claims, as the crate documents, that
/// decoding the text gives the bytes back.
#[verifier::external_body]
fn encode_base64(bytes: &[u8]) -> (r: String)
    requires
        bytes@.len() <= usize::MAX / 4,
    ensures
        r@ == base64_text(bytes@),
        base64_decoded(r@) == Some(bytes@),
{
    base64ct::Base64::encode_string(bytes)
}

/// Decodes padded standard Base64 with `base64ct::Base64::decode_vec`; the
/// contract names the outcome as a function of the text.
#[verifier::external_body]
fn decode_base64(text: &str) -> (r: Option<Vec<u8>>)
    ensures
        r matches Some(b) ==> base64_decoded(text@) == Some(b@),
        r is None ==> base64_decoded(text@) is None,
{
    base64ct::Base64::decode_vec(text).ok()
}

/// The UTF-8 bytes of a string (`String::into_bytes`); the contract names
/// them as a function of the text and states their number, the string's
/// length in bytes.
#[verifier::external_body]
fn text_bytes(text: String) -> (r: Vec<u8>)
    ensures
        r@ == utf8_encoded(text@),
        r@.len() == utf8_size(text@),
{
    text.into_bytes()
}

pub open spec fn invalid_base64() -> Seq<char> {
    "record data contains invalid base64"@
}

/// How many `=` end `s`.
pub open spec fn trailing_padding(s: Seq<char>) -> nat
    decreases s.len(),
{
    if s.len() > 0 && s.last() == '=' {
        1 + trailing_padding(s.drop_last())
    } else {
        0
    }
}

/// The size of what Base64 text decodes to, judged by its shape: a whole
/// number of 4-byte blocks, at most two `=` and only at the end.
pub open spec fn base64_size(s: Seq<char>) -> Option<nat> {
    let n = capped(utf8_size(s) as int);
    let padding = trailing_padding(s);
    if n % 4 != 0 || padding > 2 || s.subrange(0, s.len() - padding).contains('=') {
        None
    } else {
        Some(((n / 4) * 3 - padding) as nat)
    }
}

proof fn lemma_trailing_padding_bound(s: Seq<char>)
    ensures
        trailing_padding(s) <= s.len(),
        forall|i: int| s.len() - trailing_padding(s) <= i < s.len() ==> s[i] == '=',
    decreases s.len(),
{
    if s.len() > 0 && s.last() == '=' {
        lemma_trailing_padding_bound(s.drop_last());
        assert forall|i: int| s.len() - trailing_padding(s) <= i < s.len() implies s[i] == '=' by {
            if i < s.len() - 1 {
                assert(s.drop_last()[i] == s[i]);
            }
        }
    }
}

proof fn lemma_utf8_size_at_least_len(s: Seq<char>)
    ensures
        utf8_size(s) >= s.len(),
    decreases s.len(),
{
    if s.len() > 0 {
        lemma_utf8_size_at_least_len(s.drop_last());
    }
}

/// The decoded size of Base64 text, or the invalid-Base64 error.
pub fn base64_decoded_size(value: &str) -> (r: Result<usize, Error>)
    ensures
        r is Ok <==> base64_size(value@) is Some,
        r matches Ok(n) ==> base64_size(value@) == Some(n as nat),
        r matches Err(e) ==> invalid_arguments(e, invalid_base64()),
{
    let cs = chars_of(value);
    let len = byte_len(value);
    proof {
        lemma_utf8_size_at_least_len(value@);
        lemma_trailing_padding_bound(value@);
    }
    if len % 4 != 0 {
        return Err(Error::Request(RequestError::InvalidArguments(copy_str("record data contains invalid base64"))));
    }
    let mut padding: usize = 0;
    assert(value@.subrange(0, cs@.len() as int) =~= value@);
    while padding < cs.len() && cs[cs.len() - 1 - padding] == '='
        invariant
            cs@ == value@,
            padding <= cs@.len(),
            forall|i: int| cs@.len() - padding <= i < cs@.len() ==> cs@[i] == '=',
            trailing_padding(value@) == padding + trailing_padding(value@.subrange(0, cs@.len() - padding)),
        decreases cs@.len() - padding,
    {
        let ghost pre = value@.subrange(0, cs@.len() - padding);
        assert(pre.drop_last() =~= value@.subrange(0, cs@.len() - padding - 1));
        padding = padding + 1;
    }
    assert(trailing_padding(value@.subrange(0, cs@.len() - padding)) == 0) by {
        let pre = value@.subrange(0, cs@.len() - padding);
        if pre.len() > 0 {
            assert(pre.last() == cs@[cs@.len() - 1 - padding]);
        }
    }
    if padding > 2 {
        return Err(Error::Request(RequestError::InvalidArguments(copy_str("record data contains invalid base64"))));
    }
    let body = cs.len() - padding;
    let mut i: usize = 0;
    while i < body
        invariant
            cs@ == value@,
            body == cs@.len() - padding,
            trailing_padding(value@) == padding,
            i <= body,
            forall|j: int| 0 <= j < i ==> cs@[j] != '=',
        decreases body - i,
    {
        if cs[i] == '=' {
            assert(value@.subrange(0, body as int)[i as int] == '=');
            return Err(Error::Request(RequestError::InvalidArguments(copy_str("record data contains invalid base64"))));
        }
        i = i + 1;
    }
    assert(!value@.subrange(0, body as int).contains('=')) by {
        if value@.subrange(0, body as int).contains('=') {
            let k = choose|k: int| 0 <= k < body && value@.subrange(0, body as int)[k] == '=';
            assert(cs@[k] == '=');
        }
    }
    assert(len as int == capped(utf8_size(value@) as int));
    assert(len >= cs@.len());
    assert((len / 4) * 3 >= padding) by (nonlinear_arith)
        requires
            len % 4 == 0,
            len >= body + padding,
            padding <= 2,
            padding > 0 ==> len >= 4,
    {
    }
    Ok((len / 4) * 3 - padding)
}

/// The bytes that encoded bytes stand for, if they are valid.
pub open spec fn decoded_bytes(e: EncodedBytes) -> Option<Seq<u8>> {
    match e {
        EncodedBytes::Utf8(s) => Some(utf8_encoded(s@)),
        EncodedBytes::Base64(s) => base64_decoded(s@),
    }
}

impl EncodedBytes {
    /// Bytes as a response carries them; what `decode` gives back for the
    /// result is the bytes themselves.
    pub fn encode(bytes: &[u8]) -> (r: EncodedBytes)
        requires
            bytes@.len() <= usize::MAX / 4,
        ensures
            utf8_decoded(bytes@) matches Some(t) ==> (r matches EncodedBytes::Utf8(s) && s@ == t),
            utf8_decoded(bytes@) is None ==> (r matches EncodedBytes::Base64(s) && s@ == base64_text(bytes@)),
            decoded_bytes(r) == Some(bytes@),
    {
        match decode_utf8(bytes) {
            Some(text) => EncodedBytes::Utf8(text),
            None => EncodedBytes::Base64(encode_base64(bytes)),
        }
    }

    /// Size of the decoded bytes: the text's UTF-8 size, or the Base64
    /// payload's size.
    pub fn decoded_size(&self) -> (r: Result<usize, Error>)
        ensures
            self matches EncodedBytes::Utf8(s) ==> r == Ok::<usize, Error>(capped(utf8_size(s@) as int) as usize),
            self matches EncodedBytes::Base64(s) ==> (match base64_size(s@) {
                Some(n) => r == Ok::<usize, Error>(n as usize),
                None => r matches Err(e) && invalid_arguments(e, invalid_base64()),
            }),
    {
        match self {
            EncodedBytes::Utf8(value) => Ok(byte_len(value.as_str())),
            EncodedBytes::Base64(value) => base64_decoded_size(value.as_str()),
        }
    }

    /// The bytes themselves.
    pub fn decode(self) -> (r: Result<Vec<u8>, Error>)
        ensures
            match decoded_bytes(self) {
                Some(b) => r matches Ok(v) && v@ == b,
                None => r matches Err(e) && invalid_arguments(e, invalid_base64()),
            },
            self matches EncodedBytes::Utf8(s) ==> r matches Ok(v) && v@.len() == utf8_size(s@),
    {
        match self {
            EncodedBytes::Utf8(value) => Ok(text_bytes(value)),
            EncodedBytes::Base64(value) => match decode_base64(value.as_str()) {
                Some(b) => Ok(b),
                None => Err(Error::Request(RequestError::InvalidArguments(copy_str("record data contains invalid base64")))),
            },
        }
    }
}

/// One header of a record to append.
pub struct HeaderInput {
    pub name: EncodedBytes,
    pub value: EncodedBytes,
}

/// One record to append.
pub struct AppendRecordInput {
    pub body: EncodedBytes,
    pub headers: Vec<HeaderInput>,
    pub timestamp: Option<u64>,
}

pub open spec fn size_overflow() -> Seq<char> {
    "record batch size overflowed"@
}

/// The decoded size of encoded bytes, or the error text.
pub open spec fn decoded(e: EncodedBytes) -> Result<int, Seq<char>> {
    match e {
        EncodedBytes::Utf8(s) => Ok(capped(utf8_size(s@) as int)),
        EncodedBytes::Base64(s) => match base64_size(s@) {
            Some(n) => Ok(n as int),
            None => Err(invalid_base64()),
        },
    }
}

/// `a + b` when it fits in a `usize`, the overflow error otherwise.
pub open spec fn checked_sum(a: Result<int, Seq<char>>, b: Result<int, Seq<char>>) -> Result<int, Seq<char>> {
    match a {
        Err(e) => Err(e),
        Ok(x) => match b {
            Err(e) => Err(e),
            Ok(y) => if x + y > usize::MAX {
                Err(size_overflow())
            } else {
                Ok(x + y)
            },
        },
    }
}

/// Decoded bytes of a header's name and value.
pub open spec fn header_size(h: HeaderInput) -> Result<int, Seq<char>> {
    checked_sum(decoded(h.name), decoded(h.value))
}

/// `start` plus the sizes of the headers, in order.
pub open spec fn headers_total(start: Result<int, Seq<char>>, hs: Seq<HeaderInput>) -> Result<int, Seq<char>>
    decreases hs.len(),
{
    if hs.len() == 0 {
        start
    } else {
        checked_sum(headers_total(start, hs.drop_last()), header_size(hs.last()))
    }
}

/// The metered size of a record: 8 bytes, 2 per header, and the decoded
/// header names, values and body.
pub open spec fn metered(r: AppendRecordInput) -> Result<int, Seq<char>> {
    let n = r.headers@.len();
    if 2 * n > usize::MAX || 8 + 2 * n > usize::MAX {
        Err(size_overflow())
    } else {
        checked_sum(headers_total(Ok((8 + 2 * n) as int), r.headers@), decoded(r.body))
    }
}

/// The metered sizes of the records, added up in order.
pub open spec fn metered_total(rs: Seq<AppendRecordInput>) -> Result<int, Seq<char>>
    decreases rs.len(),
{
    if rs.len() == 0 {
        Ok(0)
    } else {
        checked_sum(metered_total(rs.drop_last()), metered(rs.last()))
    }
}

proof fn lemma_headers_total_err(start: Result<int, Seq<char>>, hs: Seq<HeaderInput>, i: int)
    requires
        0 <= i <= hs.len(),
        headers_total(start, hs.subrange(0, i)) is Err,
    ensures
        headers_total(start, hs) == headers_total(start, hs.subrange(0, i)),
    decreases hs.len() - i,
{
    if i < hs.len() {
        assert(hs.subrange(0, i + 1).drop_last() =~= hs.subrange(0, i));
        lemma_headers_total_err(start, hs, i + 1);
    } else {
        assert(hs.subrange(0, i) =~= hs);
    }
}

proof fn lemma_metered_total_err(rs: Seq<AppendRecordInput>, i: int)
    requires
        0 <= i <= rs.len(),
        metered_total(rs.subrange(0, i)) is Err,
    ensures
        metered_total(rs) == metered_total(rs.subrange(0, i)),
    decreases rs.len() - i,
{
    if i < rs.len() {
        assert(rs.subrange(0, i + 1).drop_last() =~= rs.subrange(0, i));
        lemma_metered_total_err(rs, i + 1);
    } else {
        assert(rs.subrange(0, i) =~= rs);
    }
}

pub open spec fn same_outcome(r: Result<usize, Error>, s: Result<int, Seq<char>>) -> bool {
    match (r, s) {
        (Ok(a), Ok(b)) => a == b,
        (Err(e), Err(t)) => invalid_arguments(e, t),
        _ => false,
    }
}

fn overflow_error() -> (e: Error)
    ensures
        invalid_arguments(e, size_overflow()),
{
    Error::Request(RequestError::InvalidArguments(copy_str("record batch size overflowed")))
}

fn checked_add_size(a: usize, b: Result<usize, Error>) -> (r: Result<usize, Error>)
    ensures
        forall|t: Result<int, Seq<char>>| same_outcome(b, t) ==> same_outcome(r, checked_sum(Ok(a as int), t)),
{
    match b {
        Err(e) => Err(e),
        Ok(y) => match a.checked_add(y) {
            Some(v) => Ok(v),
            None => Err(overflow_error()),
        },
    }
}

impl EncodedBytes {
    fn decoded_size_checked(&self) -> (r: Result<usize, Error>)
        ensures
            same_outcome(r, decoded(*self)),
    {
        self.decoded_size()
    }
}

impl HeaderInput {
    pub fn decoded_size(&self) -> (r: Result<usize, Error>)
        ensures
            same_outcome(r, header_size(*self)),
    {
        let n = self.name.decoded_size_checked()?;
        let v = self.value.decoded_size_checked();
        checked_add_size(n, v)
    }
}

impl AppendRecordInput {
    /// The record's metered size.
    pub fn metered_bytes(&self) -> (r: Result<usize, Error>)
        ensures
            same_outcome(r, metered(*self)),
    {
        let n = self.headers.len();
        let overhead = match n.checked_mul(2) {
            Some(v) => v,
            None => {
                return Err(overflow_error());
            },
        };
        let mut total = match 8usize.checked_add(overhead) {
            Some(v) => v,
            None => {
                return Err(overflow_error());
            },
        };
        let mut i: usize = 0;
        assert(self.headers@.subrange(0, 0) =~= Seq::<HeaderInput>::empty());
        while i < n
            invariant
                n == self.headers@.len(),
                i <= n,
                2 * n <= usize::MAX,
                8 + 2 * n <= usize::MAX,
                headers_total(Ok((8 + 2 * n) as int), self.headers@.subrange(0, i as int)) == Ok::<int, Seq<char>>(total as int),
            decreases n - i,
        {
            assert(self.headers@.subrange(0, i + 1).drop_last() =~= self.headers@.subrange(0, i as int));
            let h = self.headers[i].decoded_size();
            match checked_add_size(total, h) {
                Ok(t) => {
                    total = t;
                },
                Err(e) => {
                    proof {
                        lemma_headers_total_err(Ok((8 + 2 * n) as int), self.headers@, i + 1);
                        assert(self.headers@.subrange(0, n as int) =~= self.headers@);
                    }
                    return Err(e);
                },
            }
            i = i + 1;
        }
        assert(self.headers@.subrange(0, n as int) =~= self.headers@);
        let b = self.body.decoded_size_checked();
        checked_add_size(total, b)
    }
}

pub open spec fn batch_too_large() -> Seq<char> {
    "records cannot exceed 1048576 decoded metered bytes"@
}

/// Checks a batch to append: 1 to 100 records whose metered sizes add up to
/// at most 1 MiB.
pub fn validate_append_batch(records: &Vec<AppendRecordInput>) -> (r: Result<(), Error>)
    ensures
        !(1 <= records@.len() <= MAX_APPEND_RECORDS) ==> (r matches Err(e) && invalid_arguments(e, out_of_bounds("records"@, MAX_APPEND_RECORDS))),
        (1 <= records@.len() <= MAX_APPEND_RECORDS) ==> match metered_total(records@) {
            Err(t) => r matches Err(e) && invalid_arguments(e, t),
            Ok(n) => if n > MAX_APPEND_METERED_BYTES {
                r matches Err(e) && invalid_arguments(e, batch_too_large())
            } else {
                r is Ok
            },
        },
{
    bounded(records.len(), MAX_APPEND_RECORDS, "records")?;
    let mut total: usize = 0;
    let mut i: usize = 0;
    assert(records@.subrange(0, 0) =~= Seq::<AppendRecordInput>::empty());
    while i < records.len()
        invariant
            i <= records@.len(),
            1 <= records@.len() <= MAX_APPEND_RECORDS,
            metered_total(records@.subrange(0, i as int)) == Ok::<int, Seq<char>>(total as int),
        decreases records@.len() - i,
    {
        assert(records@.subrange(0, i + 1).drop_last() =~= records@.subrange(0, i as int));
        let m = records[i].metered_bytes();
        match checked_add_size(total, m) {
            Ok(t) => {
                total = t;
            },
            Err(e) => {
                proof {
                    lemma_metered_total_err(records@, i + 1);
                }
                return Err(e);
            },
        }
        i = i + 1;
    }
    assert(records@.subrange(0, records@.len() as int) =~= records@);
    if total > MAX_APPEND_METERED_BYTES {
        return Err(Error::Request(RequestError::InvalidArguments(copy_str("records cannot exceed 1048576 decoded metered bytes"))));
    }
    Ok(())
}

/// Refuses append arguments larger than 2 MiB of JSON.
pub fn validate_append_request_size(arguments: &JsonValue) -> (r: Result<(), Error>)
    ensures
        r is Ok <==> capped(value_size(*arguments) as int) <= MAX_APPEND_REQUEST_BYTES,
        r matches Err(e) ==> invalid_arguments(e, "append request cannot exceed 2097152 encoded bytes"@),
{
    if json_value_size(arguments) > MAX_APPEND_REQUEST_BYTES {
        return Err(Error::Request(RequestError::InvalidArguments(copy_str("append request cannot exceed 2097152 encoded bytes"))));
    }
    Ok(())
}

/// One record of a read response.
pub struct RecordOutput {
    pub seq_num: u64,
    pub timestamp: u64,
    pub headers: Vec<(EncodedBytes, EncodedBytes)>,
    pub body: EncodedBytes,
}

/// Bytes of `{"encoding":…,"data":…}`.
pub open spec fn encoded_size(e: EncodedBytes) -> nat {
    match e {
        EncodedBytes::Utf8(s) => 12 + 6 + 8 + string_size(s@) + 1,
        EncodedBytes::Base64(s) => 12 + 8 + 8 + string_size(s@) + 1,
    }
}

/// Bytes of `{"name":…,"value":…}`.
pub open spec fn header_output_size(h: (EncodedBytes, EncodedBytes)) -> nat {
    8 + encoded_size(h.0) + 9 + encoded_size(h.1) + 1
}

pub open spec fn headers_output_size(hs: Seq<(EncodedBytes, EncodedBytes)>) -> nat
    decreases hs.len(),
{
    if hs.len() == 0 {
        0
    } else {
        headers_output_size(hs.drop_last()) + header_output_size(hs.last()) + if hs.len() == 1 {
            0nat
        } else {
            1nat
        }
    }
}

/// Bytes of one record in compact JSON.
pub open spec fn record_size(r: RecordOutput) -> nat {
    11 + decimal_len(r.seq_num as nat) + 13 + decimal_len(r.timestamp as nat) + 11 + 2
        + headers_output_size(r.headers@) + 8 + encoded_size(r.body) + 1
}

fn encoded_json_size(e: &EncodedBytes) -> (n: usize)
    ensures
        n == capped(encoded_size(*e) as int),
{
    match e {
        EncodedBytes::Utf8(s) => add_capped(27, json_string_size(s.as_str())),
        EncodedBytes::Base64(s) => add_capped(29, json_string_size(s.as_str())),
    }
}

/// Size of one record in compact JSON, capped at the largest `usize`.
pub fn record_json_size(r: &RecordOutput) -> (n: usize)
    ensures
        n == capped(record_size(*r) as int),
{
    let mut n: usize = 11;
    n = add_capped(n, u64_json_size(r.seq_num));
    n = add_capped(n, 13);
    n = add_capped(n, u64_json_size(r.timestamp));
    n = add_capped(n, 13);
    let ghost hs = r.headers@;
    let mut i: usize = 0;
    assert(hs.subrange(0, 0) =~= Seq::<(EncodedBytes, EncodedBytes)>::empty());
    while i < r.headers.len()
        invariant
            hs == r.headers@,
            i <= hs.len(),
            n == capped(11 + decimal_len(r.seq_num as nat) + 13 + decimal_len(r.timestamp as nat) + 13 + headers_output_size(hs.subrange(0, i as int)) as int),
        decreases hs.len() - i,
    {
        assert(hs.subrange(0, i + 1).drop_last() =~= hs.subrange(0, i as int));
        if i > 0 {
            n = add_capped(n, 1);
        }
        n = add_capped(n, 8);
        n = add_capped(n, encoded_json_size(&r.headers[i].0));
        n = add_capped(n, 9);
        n = add_capped(n, encoded_json_size(&r.headers[i].1));
        n = add_capped(n, 1);
        i = i + 1;
    }
    assert(hs.subrange(0, hs.len() as int) =~= hs);
    n = add_capped(n, 8);
    n = add_capped(n, encoded_json_size(&r.body));
    n = add_capped(n, 1);
    n
}

/// Bytes of a position `{"seq_num":…,"timestamp":…}`.
pub open spec fn position_size(p: PositionOutput) -> nat {
    11 + decimal_len(p.seq_num as nat) + 13 + decimal_len(p.timestamp as nat) + 1
}

/// The kind of read response: a plain read, or a wait with its caught-up
/// and timed-out flags.
#[derive(Clone, Copy)]
pub enum ReadEnvelope {
    Read,
    Wait { caught_up: bool, timed_out: bool },
}

pub open spec fn bool_size(b: bool) -> nat {
    if b {
        4
    } else {
        5
    }
}

/// Bytes of a read response without its records.
pub open spec fn empty_response_size(kind: ReadEnvelope, next: Option<u64>, tail: Option<PositionOutput>, truncated: bool) -> nat {
    11 + 2 + 16 + (match next {
        Some(n) => decimal_len(n as nat),
        None => 4,
    }) + 8 + (match tail {
        Some(p) => position_size(p),
        None => 4,
    }) + 13 + bool_size(truncated) + (match kind {
        ReadEnvelope::Read => 0,
        ReadEnvelope::Wait { caught_up, timed_out } => 13 + bool_size(caught_up && !truncated) + 13 + bool_size(timed_out),
    }) + 1
}

fn empty_response_json_size(kind: ReadEnvelope, next: Option<u64>, tail: Option<PositionOutput>, truncated: bool) -> (n: usize)
    ensures
        n == empty_response_size(kind, next, tail, truncated),
{
    let a: usize = match next {
        Some(x) => u64_json_size(x),
        None => 4,
    };
    let b: usize = match tail {
        Some(p) => 25 + u64_json_size(p.seq_num) + u64_json_size(p.timestamp),
        None => 4,
    };
    let c: usize = if truncated { 4 } else { 5 };
    let d: usize = match kind {
        ReadEnvelope::Read => 0,
        ReadEnvelope::Wait { caught_up, timed_out } => 26 + (if caught_up && !truncated { 4 } else { 5 }) + (if timed_out { 4 } else { 5 }),
    };
    29 + a + 8 + b + 13 + c + d + 1
}

/// `a + b`, saturating at the largest `usize`.
pub open spec fn sat(a: int, b: int) -> int {
    capped(a + b)
}

/// The bytes the first `count` records add to a response, summed the way a
/// saturating byte counter sums them.
pub open spec fn records_contribution(rs: Seq<RecordOutput>, count: int) -> int
    decreases count,
{
    if count <= 0 {
        0
    } else {
        sat(
            sat(records_contribution(rs, count - 1), capped(record_size(rs[count - 1]) as int)),
            if count > 1 {
                1
            } else {
                0
            },
        )
    }
}

/// The next sequence number a response with `count` records reports.
pub open spec fn prefix_next(rs: Seq<RecordOutput>, count: int, full_next: Option<u64>) -> Option<u64> {
    if count < rs.len() {
        Some(rs[count].seq_num)
    } else {
        full_next
    }
}

/// A response with the first `count` records fits in `maximum` bytes.
pub open spec fn prefix_fits(kind: ReadEnvelope, rs: Seq<RecordOutput>, count: int, full_next: Option<u64>, tail: Option<PositionOutput>, maximum: int) -> bool {
    sat(
        empty_response_size(kind, prefix_next(rs, count, full_next), tail, count < rs.len()) as int,
        records_contribution(rs, count),
    ) <= maximum
}

/// How many records a bounded response keeps, what it reports as next, and
/// whether it cut records.
#[derive(Clone, Copy)]
pub struct RecordPrefix {
    pub count: usize,
    pub next_seq_num: Option<u64>,
    pub truncated: bool,
}

pub open spec fn metadata_too_large() -> Seq<char> {
    "max_output_bytes is too small to encode response metadata"@
}

fn prefix_attempt(
    kind: ReadEnvelope,
    records: &Vec<RecordOutput>,
    count: usize,
    contribution: usize,
    full_next_seq_num: Option<u64>,
    tail: Option<PositionOutput>,
    maximum: usize,
) -> (r: Option<RecordPrefix>)
    requires
        count <= records@.len(),
        contribution as int == records_contribution(records@, count as int),
    ensures
        r is Some <==> prefix_fits(kind, records@, count as int, full_next_seq_num, tail, maximum as int),
        r matches Some(p) ==> p.count == count && p.next_seq_num == prefix_next(records@, count as int, full_next_seq_num)
            && p.truncated == (count < records@.len()),
{
    let truncated = count < records.len();
    let next = if truncated {
        Some(records[count].seq_num)
    } else {
        full_next_seq_num
    };
    let envelope = empty_response_json_size(kind, next, tail, truncated);
    if add_capped(envelope, contribution) <= maximum {
        Some(RecordPrefix { count, next_seq_num: next, truncated })
    } else {
        None
    }
}

/// The longest prefix of the records whose response fits in `maximum` bytes.
pub fn bounded_record_prefix(
    kind: ReadEnvelope,
    records: &Vec<RecordOutput>,
    full_next_seq_num: Option<u64>,
    tail: Option<PositionOutput>,
    maximum: usize,
) -> (r: Result<RecordPrefix, Error>)
    ensures
        r is Err <==> forall|k: int| 0 <= k <= records@.len() ==> !#[trigger] prefix_fits(kind, records@, k, full_next_seq_num, tail, maximum as int),
        r matches Err(e) ==> invalid_arguments(e, metadata_too_large()),
        r matches Ok(p) ==> {
            &&& p.count <= records@.len()
            &&& prefix_fits(kind, records@, p.count as int, full_next_seq_num, tail, maximum as int)
            &&& forall|k: int| p.count < k <= records@.len() ==> !#[trigger] prefix_fits(kind, records@, k, full_next_seq_num, tail, maximum as int)
            &&& p.next_seq_num == prefix_next(records@, p.count as int, full_next_seq_num)
            &&& p.truncated == (p.count < records@.len())
        },
{
    let n = records.len();
    let mut contribution: usize = 0;
    let mut count: usize = 0;
    let first = prefix_attempt(kind, records, 0, contribution, full_next_seq_num, tail, maximum);
    let mut best: Option<RecordPrefix> = first;
    while count < n
        invariant
            n == records@.len(),
            count <= n,
            contribution as int == records_contribution(records@, count as int),
            best matches Some(p) ==> {
                &&& p.count <= count
                &&& prefix_fits(kind, records@, p.count as int, full_next_seq_num, tail, maximum as int)
                &&& forall|k: int| p.count < k <= count ==> !#[trigger] prefix_fits(kind, records@, k, full_next_seq_num, tail, maximum as int)
                &&& p.next_seq_num == prefix_next(records@, p.count as int, full_next_seq_num)
                &&& p.truncated == (p.count < records@.len())
            },
            best is None ==> forall|k: int| 0 <= k <= count ==> !#[trigger] prefix_fits(kind, records@, k, full_next_seq_num, tail, maximum as int),
        decreases n - count,
    {
        count = count + 1;
        let size = record_json_size(&records[count - 1]);
        contribution = add_capped(add_capped(contribution, size), if count > 1 { 1 } else { 0 });
        let attempt = prefix_attempt(kind, records, count, contribution, full_next_seq_num, tail, maximum);
        if attempt.is_some() {
            best = attempt;
        }
    }
    match best {
        Some(p) => Ok(p),
        None => Err(Error::Request(RequestError::InvalidArguments(copy_str("max_output_bytes is too small to encode response metadata")))),
    }
}

/// A record as a read returned it, with whether it is a command record.
pub struct BatchRecord {
    pub record: RecordOutput,
    pub is_command: bool,
}

/// The records a response shows: all of them, or only the non-command ones.
pub open spec fn shown(batch: Seq<BatchRecord>, ignore_command_records: bool) -> Seq<RecordOutput>
    decreases batch.len(),
{
    if batch.len() == 0 {
        Seq::empty()
    } else {
        let rest = shown(batch.drop_last(), ignore_command_records);
        if ignore_command_records && batch.last().is_command {
            rest
        } else {
            rest.push(batch.last().record)
        }
    }
}

/// The sequence number of the last record of a batch.
pub open spec fn last_seq(batch: Seq<BatchRecord>) -> Option<u64> {
    if batch.len() == 0 {
        None
    } else {
        Some(batch.last().record.seq_num)
    }
}

/// What a read produced, before it is bounded to a response.
pub struct PreparedReadOutput {
    pub records: Vec<RecordOutput>,
    pub next_seq_num: Option<u64>,
    pub tail: Option<PositionOutput>,
    pub caught_up: bool,
    pub had_records: bool,
}

/// A read response.
pub struct ReadRecordsOutput {
    pub records: Vec<RecordOutput>,
    pub next_seq_num: Option<u64>,
    pub tail: Option<PositionOutput>,
    pub truncated: bool,
}

/// A wait-for-records response.
pub struct WaitForRecordsOutput {
    pub records: Vec<RecordOutput>,
    pub next_seq_num: Option<u64>,
    pub tail: Option<PositionOutput>,
    pub truncated: bool,
    pub caught_up: bool,
    pub timed_out: bool,
}

/// The kind of a wait response: caught up as prepared, timed out when the
/// client gave up or nothing came.
pub open spec fn wait_kind(p: PreparedReadOutput, client_timed_out: bool) -> ReadEnvelope {
    ReadEnvelope::Wait { caught_up: p.caught_up, timed_out: client_timed_out || !p.had_records }
}

impl PreparedReadOutput {
    /// Prepares a read batch: whether it reached the tail and had records
    /// (command records included), where to read next, and the records to
    /// show.
    pub fn new(batch: Vec<BatchRecord>, tail: Option<PositionOutput>, fallback_next_seq_num: Option<u64>, ignore_command_records: bool) -> (p: Self)
        ensures
            p.caught_up == caught_up(last_seq(batch@), tail),
            p.had_records == (batch@.len() > 0),
            p.next_seq_num == next_seq_num(last_seq(batch@), fallback_next_seq_num, match tail {
                Some(t) => Some(t.seq_num),
                None => None,
            }),
            p.records@ == shown(batch@, ignore_command_records),
            p.tail == tail,
    {
        let n = batch.len();
        let last: Option<u64> = if n > 0 {
            Some(batch[n - 1].record.seq_num)
        } else {
            None
        };
        let caught = batch_caught_up(last, tail);
        let tail_seq: Option<u64> = match tail {
            Some(t) => Some(t.seq_num),
            None => None,
        };
        let next = next_sequence_num(last, fallback_next_seq_num, tail_seq);
        let ghost initial = batch@;
        let mut rest = batch;
        let mut reversed: Vec<BatchRecord> = Vec::new();
        while rest.len() > 0
            invariant
                rest@ + reversed@.reverse() == initial,
            decreases rest@.len(),
        {
            let ghost before = rest@;
            let item = rest.pop().unwrap();
            assert(rest@ + seq![item] =~= before);
            reversed.push(item);
            assert(reversed@.reverse() =~= seq![item] + reversed@.drop_last().reverse());
            assert(rest@ + reversed@.reverse() =~= before + reversed@.drop_last().reverse());
        }
        assert(reversed@.reverse() =~= initial);
        let mut records: Vec<RecordOutput> = Vec::new();
        let mut k: usize = 0;
        assert(initial.subrange(0, 0) =~= Seq::<BatchRecord>::empty());
        while reversed.len() > 0
            invariant
                reversed@.reverse() == initial.subrange(k as int, initial.len() as int),
                k + reversed@.len() == initial.len(),
                initial.len() == n,
                records@ == shown(initial.subrange(0, k as int), ignore_command_records),
            decreases reversed@.len(),
        {
            let ghost before = reversed@;
            let item = reversed.pop().unwrap();
            assert(before.reverse()[0] == item);
            assert(reversed@.reverse() =~= before.reverse().drop_first());
            assert(initial.subrange(0, k + 1).drop_last() =~= initial.subrange(0, k as int));
            assert(initial.subrange(0, k + 1).last() == item);
            if !(ignore_command_records && item.is_command) {
                records.push(item.record);
            }
            k = k + 1;
            assert(initial.subrange(k as int, initial.len() as int) =~= before.reverse().drop_first());
        }
        assert(initial.subrange(0, k as int) =~= initial);
        PreparedReadOutput { records, next_seq_num: next, tail, caught_up: caught, had_records: n > 0 }
    }

    /// Nothing read (the wait ran out on the client's side).
    pub fn empty(next_seq_num: Option<u64>) -> (p: Self)
        ensures
            p.records@.len() == 0,
            p.next_seq_num == next_seq_num,
            p.tail is None,
            !p.caught_up,
            !p.had_records,
    {
        PreparedReadOutput { records: Vec::new(), next_seq_num, tail: None, caught_up: false, had_records: false }
    }

    /// The read response, keeping the longest prefix of records that fits in
    /// `maximum` bytes.
    pub fn into_read_records(self, maximum: usize) -> (r: Result<ReadRecordsOutput, Error>)
        ensures
            r is Err <==> forall|k: int| 0 <= k <= self.records@.len() ==> !#[trigger] prefix_fits(ReadEnvelope::Read, self.records@, k, self.next_seq_num, self.tail, maximum as int),
            r matches Err(e) ==> invalid_arguments(e, metadata_too_large()),
            r matches Ok(o) ==> {
                &&& o.records@ == self.records@.subrange(0, o.records@.len() as int)
                &&& prefix_fits(ReadEnvelope::Read, self.records@, o.records@.len() as int, self.next_seq_num, self.tail, maximum as int)
                &&& forall|k: int| o.records@.len() < k <= self.records@.len() ==> !#[trigger] prefix_fits(ReadEnvelope::Read, self.records@, k, self.next_seq_num, self.tail, maximum as int)
                &&& o.next_seq_num == prefix_next(self.records@, o.records@.len() as int, self.next_seq_num)
                &&& o.truncated == (o.records@.len() < self.records@.len())
                &&& o.tail == self.tail
            },
    {
        let PreparedReadOutput { mut records, next_seq_num, tail, .. } = self;
        let prefix = bounded_record_prefix(ReadEnvelope::Read, &records, next_seq_num, tail, maximum)?;
        records.truncate(prefix.count);
        Ok(ReadRecordsOutput { records, next_seq_num: prefix.next_seq_num, tail, truncated: prefix.truncated })
    }

    /// The wait response: timed out when the client gave up or nothing came;
    /// caught up only when no record was cut.
    pub fn into_wait_for_records(self, maximum: usize, client_timed_out: bool) -> (r: Result<WaitForRecordsOutput, Error>)
        ensures
            r is Err <==> forall|k: int| 0 <= k <= self.records@.len() ==> !#[trigger] prefix_fits(wait_kind(self, client_timed_out), self.records@, k, self.next_seq_num, self.tail, maximum as int),
            r matches Err(e) ==> invalid_arguments(e, metadata_too_large()),
            r matches Ok(o) ==> o.records@ == self.records@.subrange(0, o.records@.len() as int),
            r matches Ok(o) ==> prefix_fits(wait_kind(self, client_timed_out), self.records@, o.records@.len() as int, self.next_seq_num, self.tail, maximum as int),
            r matches Ok(o) ==> forall|k: int| o.records@.len() < k <= self.records@.len() ==> !#[trigger] prefix_fits(wait_kind(self, client_timed_out), self.records@, k, self.next_seq_num, self.tail, maximum as int),
            r matches Ok(o) ==> o.next_seq_num == prefix_next(self.records@, o.records@.len() as int, self.next_seq_num),
            r matches Ok(o) ==> o.truncated == (o.records@.len() < self.records@.len()),
            r matches Ok(o) ==> o.caught_up == (self.caught_up && !o.truncated),
            r matches Ok(o) ==> o.timed_out == (client_timed_out || !self.had_records),
            r matches Ok(o) ==> o.tail == self.tail,
    {
        let PreparedReadOutput { mut records, next_seq_num, tail, caught_up, had_records } = self;
        let timed_out = client_timed_out || !had_records;
        let kind = ReadEnvelope::Wait { caught_up, timed_out };
        let prefix = match bounded_record_prefix(kind, &records, next_seq_num, tail, maximum) {
            Ok(p) => p,
            Err(e) => {
                return Err(e);
            },
        };
        records.truncate(prefix.count);
        Ok(
            WaitForRecordsOutput {
                records,
                next_seq_num: prefix.next_seq_num,
                tail,
                truncated: prefix.truncated,
                caught_up: caught_up && !prefix.truncated,
                timed_out,
            },
        )
    }
}

} // verus!
