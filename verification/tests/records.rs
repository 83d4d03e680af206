use s2_mcp::errors::{Error, RequestError};
use s2_mcp::json::JsonValue;
use s2_mcp::records::{
    base64_decoded_size, batch_caught_up, bounded_read_output_bytes, bounded_wait_timeout, next_sequence_num,
    read_bounds, validate_append_batch, validate_append_request_size, wait_deadline_seconds, AppendRecordInput,
    BatchRecord, EncodedBytes, HeaderInput, PositionOutput, PreparedReadOutput, ReadPosition, RecordOutput,
};

fn invalid_arguments<T>(result: Result<T, Error>) -> String {
    match result {
        Err(Error::Request(RequestError::InvalidArguments(message))) => message,
        _ => panic!("expected invalid arguments"),
    }
}

fn utf8(text: &str) -> EncodedBytes {
    EncodedBytes::Utf8(text.to_owned())
}

fn record(seq_num: u64, body: &str) -> RecordOutput {
    RecordOutput { seq_num, timestamp: 1000 + seq_num, headers: vec![], body: utf8(body) }
}

fn batch_record(seq_num: u64, body: &str, is_command: bool) -> BatchRecord {
    BatchRecord { record: record(seq_num, body), is_command }
}

#[test]
fn read_bounds_default_and_check_each_limit() {
    let bounds = read_bounds(None, None, None).unwrap_or_else(|_| panic!("defaults are valid"));
    assert_eq!(bounds.count, 100);
    assert_eq!(bounds.bytes, 262144);
    assert_eq!(bounds.output_bytes, 524288);
    assert_eq!(invalid_arguments(read_bounds(Some(0), None, None)), "limit must be between 1 and 100");
    assert_eq!(invalid_arguments(read_bounds(Some(5), Some(262145), None)), "max_bytes must be between 1 and 262144");
    assert_eq!(
        invalid_arguments(read_bounds(Some(5), Some(10), Some(10))),
        "max_output_bytes must be between 1024 and 2097152"
    );
    assert_eq!(invalid_arguments(read_bounds(Some(500), Some(0), Some(10))), "limit must be between 1 and 100");
    assert!(bounded_read_output_bytes(1024).is_ok());
    assert!(bounded_read_output_bytes(2097153).is_err());
}

#[test]
fn wait_timeouts_are_bounded() {
    assert_eq!(bounded_wait_timeout(25).ok(), Some(25));
    assert_eq!(invalid_arguments(bounded_wait_timeout(0)), "timeout_seconds must be between 1 and 25");
    assert!(bounded_wait_timeout(26).is_err());
    assert_eq!(wait_deadline_seconds(25), 26);
}

#[test]
fn next_sequence_number_rules() {
    assert_eq!(next_sequence_num(Some(9), Some(3), Some(50)), Some(10));
    assert_eq!(next_sequence_num(None, Some(3), Some(50)), Some(3));
    assert_eq!(next_sequence_num(None, None, Some(50)), Some(50));
    assert_eq!(next_sequence_num(Some(u64::MAX), None, Some(7)), Some(7));
    assert_eq!(ReadPosition::SeqNum { value: 4 }.fallback_next_seq_num(), Some(4));
    assert_eq!(ReadPosition::TailOffset { value: 4 }.fallback_next_seq_num(), None);
}

#[test]
fn caught_up_means_the_tail_follows_the_last_record() {
    let tail = Some(PositionOutput { seq_num: 10, timestamp: 5 });
    assert!(batch_caught_up(Some(9), tail));
    assert!(!batch_caught_up(Some(8), tail));
    assert!(batch_caught_up(None, tail));
    assert!(!batch_caught_up(Some(9), None));
}

#[test]
fn base64_sizes() {
    assert_eq!(base64_decoded_size("").ok(), Some(0));
    assert_eq!(base64_decoded_size("aGVsbG8=").ok(), Some(5));
    assert_eq!(base64_decoded_size("aGk=").ok(), Some(2));
    assert_eq!(base64_decoded_size("aGVsbG8h").ok(), Some(6));
    assert_eq!(invalid_arguments(base64_decoded_size("abc")), "record data contains invalid base64");
    assert!(base64_decoded_size("a===").is_err());
    assert!(base64_decoded_size("ab=c").is_err());
}

#[test]
fn bytes_are_sent_as_text_when_they_are_utf8() {
    match EncodedBytes::encode(b"hello") {
        EncodedBytes::Utf8(text) => assert_eq!(text, "hello"),
        EncodedBytes::Base64(_) => panic!("valid UTF-8 stays text"),
    }
    match EncodedBytes::encode(&[0xff, 0x00, 0x01]) {
        EncodedBytes::Base64(text) => assert_eq!(text, "/wAB"),
        EncodedBytes::Utf8(_) => panic!("invalid UTF-8 is Base64"),
    }
}

#[test]
fn encoded_bytes_decode_back() {
    assert_eq!(utf8("héllo").decode().ok(), Some("héllo".as_bytes().to_vec()));
    assert_eq!(EncodedBytes::Base64("aGVsbG8=".to_owned()).decode().ok(), Some(b"hello".to_vec()));
    assert_eq!(
        invalid_arguments(EncodedBytes::Base64("a=b=".to_owned()).decode()),
        "record data contains invalid base64"
    );
    assert_eq!(utf8("héllo").decoded_size().ok(), Some(6));
    assert_eq!(EncodedBytes::Base64("aGk=".to_owned()).decoded_size().ok(), Some(2));
    let round_trip = EncodedBytes::encode(&[0xfe, 0xed]).decode().ok();
    assert_eq!(round_trip, Some(vec![0xfe, 0xed]));
}

#[test]
fn metered_size_of_a_record() {
    let input = AppendRecordInput {
        body: utf8("hello"),
        headers: vec![HeaderInput { name: utf8("k"), value: EncodedBytes::Base64("aGk=".to_owned()) }],
        timestamp: None,
    };
    assert_eq!(input.metered_bytes().ok(), Some(8 + 2 + 1 + 2 + 5));
    let plain = AppendRecordInput { body: utf8(""), headers: vec![], timestamp: Some(3) };
    assert_eq!(plain.metered_bytes().ok(), Some(8));
}

#[test]
fn append_batches_are_checked() {
    assert_eq!(invalid_arguments(validate_append_batch(&vec![])), "records must be between 1 and 100");
    let ok = vec![AppendRecordInput { body: utf8("x"), headers: vec![], timestamp: None }];
    assert!(validate_append_batch(&ok).is_ok());
    let big = "x".repeat(600 * 1024);
    let too_large = vec![
        AppendRecordInput { body: utf8(&big), headers: vec![], timestamp: None },
        AppendRecordInput { body: utf8(&big), headers: vec![], timestamp: None },
    ];
    assert_eq!(
        invalid_arguments(validate_append_batch(&too_large)),
        "records cannot exceed 1048576 decoded metered bytes"
    );
    let bad = vec![AppendRecordInput { body: EncodedBytes::Base64("abc".to_owned()), headers: vec![], timestamp: None }];
    assert_eq!(invalid_arguments(validate_append_batch(&bad)), "record data contains invalid base64");
}

#[test]
fn append_requests_are_bounded_in_size() {
    assert!(validate_append_request_size(&JsonValue::Object(vec![])).is_ok());
    let huge = JsonValue::String("y".repeat(3 * 1024 * 1024));
    assert_eq!(
        invalid_arguments(validate_append_request_size(&huge)),
        "append request cannot exceed 2097152 encoded bytes"
    );
}

#[test]
fn prepared_reads_drop_command_records_on_request() {
    let tail = Some(PositionOutput { seq_num: 3, timestamp: 9 });
    let batch = vec![batch_record(0, "a", false), batch_record(1, "fence", true), batch_record(2, "c", false)];
    let prepared = PreparedReadOutput::new(batch, tail, Some(0), true);
    assert_eq!(prepared.records.len(), 2);
    assert_eq!(prepared.records[1].seq_num, 2);
    assert_eq!(prepared.next_seq_num, Some(3));
    assert!(prepared.caught_up);
    assert!(prepared.had_records);

    let output = prepared.into_read_records(524288).unwrap_or_else(|_| panic!("fits"));
    assert_eq!(output.records.len(), 2);
    assert!(!output.truncated);
    assert_eq!(output.next_seq_num, Some(3));
}

#[test]
fn read_responses_keep_the_prefix_that_fits() {
    let body = "z".repeat(700);
    let batch = vec![batch_record(0, &body, false), batch_record(1, &body, false), batch_record(2, &body, false)];
    let prepared = PreparedReadOutput::new(batch, None, Some(0), false);
    let output = prepared.into_read_records(1024).unwrap_or_else(|_| panic!("the first record fits"));
    assert_eq!(output.records.len(), 1);
    assert!(output.truncated);
    assert_eq!(output.next_seq_num, Some(1));
}

#[test]
fn an_empty_wait_times_out() {
    let prepared = PreparedReadOutput::empty(Some(4));
    let output = prepared.into_wait_for_records(1024, true).unwrap_or_else(|_| panic!("empty fits"));
    assert!(output.timed_out);
    assert!(!output.caught_up);
    assert!(output.records.is_empty());
    assert_eq!(output.next_seq_num, Some(4));

    let tail = Some(PositionOutput { seq_num: 1, timestamp: 2 });
    let prepared = PreparedReadOutput::new(vec![batch_record(0, "a", false)], tail, None, false);
    let output = prepared.into_wait_for_records(4096, false).unwrap_or_else(|_| panic!("fits"));
    assert!(!output.timed_out);
    assert!(output.caught_up);
}
