use jet_black::protocol::{CommandResult, Envelope, ResponseEnvelope, StructuredError, PROTOCOL_VERSION};
use jet_black::text::{i64_to_decimal, to_hex_lower, u64_to_decimal};
use jet_black::time::Duration;

#[test]
fn unsupported_versions_are_reported_without_retry() {
    let error = StructuredError::unsupported_version("0.1");
    assert_eq!(error.code, "unsupported_protocol_version");
    assert_eq!(error.message, "protocol version 0.1 is unsupported");
    assert!(!error.retryable);
}

#[test]
fn envelopes_carry_this_protocol_version() {
    let envelope = Envelope::new(3u8).unwrap();
    assert_eq!(envelope.version, PROTOCOL_VERSION);
    assert_eq!(envelope.payload, 3);
    assert_eq!(envelope.validate_version(), Ok(()));
    assert_ne!(envelope.request_id, Envelope::new(3u8).unwrap().request_id);
    let version = (envelope.request_id >> 76) & 0xf;
    let variant = (envelope.request_id >> 62) & 0x3;
    assert_eq!((version, variant), (4, 2));
    let fixed = Envelope::with_request_id(42, 3u8);
    assert_eq!((fixed.version.as_str(), fixed.request_id, fixed.payload), (PROTOCOL_VERSION, 42, 3));
    let old = Envelope { version: "0.8".to_owned(), request_id: 1, payload: () };
    assert_eq!(old.validate_version(), Err(StructuredError::unsupported_version("0.8")));
}

#[test]
fn responses_answer_their_request() {
    let ok = ResponseEnvelope::success(9, "value");
    assert_eq!(ok.version, "0.9");
    assert_eq!(ok.request_id, 9);
    assert_eq!(ok.result, CommandResult::Success("value"));
    let error = StructuredError::unsupported_version("1.0");
    let failed = ResponseEnvelope::<()>::error(9, error.clone());
    assert_eq!(failed.result, CommandResult::Error(error));
}

#[test]
fn numbers_render_in_decimal_and_hex() {
    assert_eq!(u64_to_decimal(0), "0");
    assert_eq!(u64_to_decimal(u64::MAX), "18446744073709551615");
    assert_eq!(i64_to_decimal(-42), "-42");
    assert_eq!(i64_to_decimal(i64::MIN), "-9223372036854775808");
    assert_eq!(to_hex_lower(&[0x00, 0xab, 0xff]), "00abff");
}

#[test]
fn durations_count_whole_milliseconds() {
    let d = Duration::from_millis(1_500);
    assert_eq!(d.as_secs(), 1);
    assert_eq!(d.subsec_nanos(), 500_000_000);
    assert_eq!(d.as_millis(), 1_500);
    assert!(Duration::from_secs(0).is_zero());
}
