use loki_logger::batch::LogEntry;
use loki_logger::payload::append_dec;
use loki_logger::payload::append_json_escaped;
use loki_logger::payload::encode_payload;
use loki_logger::submit::EncodedPayload;
use loki_logger::submit::prepare_payload;

fn entry(ts: u128, line: &str) -> LogEntry {
    LogEntry { timestamp: ts, line: String::from(line) }
}

fn labels(pairs: &[(&str, &str)]) -> Vec<(String, String)> {
    pairs.iter().map(|(k, v)| (String::from(*k), String::from(*v))).collect()
}

#[test]
fn encodes_single_entry() {
    let ls = labels(&[("app", "x")]);
    let es = vec![entry(123, "hello")];
    let body = encode_payload(&ls, &es);
    assert_eq!(
        body,
        "{\"streams\":[{\"stream\":{\"app\":\"x\"},\"values\":[[\"123\",\"hello\"]]}]}"
    );
}

#[test]
fn encodes_multiple_entries_and_labels_in_order() {
    let ls = labels(&[("app", "x"), ("env", "prod")]);
    let es = vec![entry(1, "a"), entry(2, "b"), entry(3, "c")];
    let body = encode_payload(&ls, &es);
    assert_eq!(
        body,
        "{\"streams\":[{\"stream\":{\"app\":\"x\",\"env\":\"prod\"},\"values\":[[\"1\",\"a\"],[\"2\",\"b\"],[\"3\",\"c\"]]}]}"
    );
}

#[test]
fn encodes_empty_batch_as_empty_values() {
    let ls = labels(&[("app", "x")]);
    let es: Vec<LogEntry> = Vec::new();
    let body = encode_payload(&ls, &es);
    assert_eq!(body, "{\"streams\":[{\"stream\":{\"app\":\"x\"},\"values\":[]}]}");
}

#[test]
fn escapes_json_characters() {
    let mut out = String::new();
    append_json_escaped(&mut out, "a\"b\\c\nd\re\tf\u{8}g\u{c}h");
    assert_eq!(out, "a\\\"b\\\\c\\nd\\re\\tf\\bg\\fh");
}

#[test]
fn escapes_control_characters_as_unicode() {
    let mut out = String::new();
    append_json_escaped(&mut out, "x\u{1}y\u{1f}z");
    assert_eq!(out, "x\\u0001y\\u001fz");
}

#[test]
fn leaves_unicode_text_alone() {
    let mut out = String::new();
    append_json_escaped(&mut out, "héllo wörld ✓");
    assert_eq!(out, "héllo wörld ✓");
}

#[test]
fn renders_decimal_timestamps() {
    let mut out = String::new();
    append_dec(&mut out, 0);
    assert_eq!(out, "0");
    let mut out = String::new();
    append_dec(&mut out, 1666890000000000000);
    assert_eq!(out, "1666890000000000000");
    let mut out = String::new();
    append_dec(&mut out, u128::MAX);
    assert_eq!(out, "340282366920938463463374607431768211455");
}

#[test]
fn plain_payload_is_the_json_body() {
    let ls = labels(&[("app", "x")]);
    let es = vec![entry(7, "line")];
    match prepare_payload(&ls, &es, false) {
        Ok(EncodedPayload::Plain(s)) => {
            assert_eq!(s, "{\"streams\":[{\"stream\":{\"app\":\"x\"},\"values\":[[\"7\",\"line\"]]}]}");
        }
        _ => panic!("expected a plain payload"),
    }
}

#[test]
fn gzipped_payload_round_trips() {
    let ls = labels(&[("app", "x")]);
    let es = vec![entry(7, "line")];
    let expected = "{\"streams\":[{\"stream\":{\"app\":\"x\"},\"values\":[[\"7\",\"line\"]]}]}";
    match prepare_payload(&ls, &es, true) {
        Ok(EncodedPayload::Gzipped(bytes)) => {
            // A gzip stream, not the text handed in.
            assert_ne!(bytes.as_slice(), expected.as_bytes());
            assert_eq!(bytes[0], 0x1f);
            assert_eq!(bytes[1], 0x8b);
            let mut decoder = flate2::read::GzDecoder::new(bytes.as_slice());
            let mut decompressed = String::new();
            std::io::Read::read_to_string(&mut decoder, &mut decompressed).unwrap();
            assert_eq!(decompressed, expected);
        }
        _ => panic!("expected a gzipped payload"),
    }
}
