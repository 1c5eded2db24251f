use realtor_query::ResultRecord;
use realtor_query::Status;
use realtor_query::decode_query_record;
use realtor_query::decode_record;
use realtor_query::encode_record;

fn record(name: &str, status: Status, price: &str, query: &str) -> ResultRecord {
    ResultRecord {
        name: name.as_bytes().to_vec(),
        status,
        price: price.as_bytes().to_vec(),
        query: query.as_bytes().to_vec(),
    }
}

#[test]
fn encodes_the_expected_line() {
    let rec = record("123 Main St", Status::Active, "$425,000", "123-main-st");
    let line = encode_record(&rec);
    assert_eq!(
        String::from_utf8(line).unwrap(),
        r#"{"name":"123 Main St","status":"active","price":"$425,000","query":"123-main-st"}"#
    );
}

#[test]
fn round_trips_one_record_per_status() {
    let cases = vec![
        record("A House", Status::Active, "$425,000", "a-house"),
        record("B House", Status::Pending, "$42,500", "b-house"),
        record("C House", Status::Contingent, "$99,950", "c-house"),
        record("D House", Status::JustSold, "", "d-house"),
        record("E House", Status::OffMarket, "", "e-house"),
        record("F House", Status::Unknown, "", "f-house"),
    ];
    for rec in cases {
        let line = encode_record(&rec);
        let back = decode_record(line.as_slice()).expect("line must decode");
        assert_eq!(back, rec);
    }
}

#[test]
fn round_trips_fields_needing_escapes() {
    let rec = ResultRecord {
        name: b"say \"hi\" \\ there".to_vec(),
        status: Status::Active,
        price: b"".to_vec(),
        query: b"q\\\"q".to_vec(),
    };
    let line = encode_record(&rec);
    let back = decode_record(line.as_slice()).expect("line must decode");
    assert_eq!(back, rec);
}

#[test]
fn round_trips_non_ascii_text() {
    let rec = record("Calle Alcalá 5", Status::Pending, "$99,000", "calle-alcalá-5");
    let line = encode_record(&rec);
    let back = decode_record(line.as_slice()).expect("line must decode");
    assert_eq!(back, rec);
    assert_eq!(String::from_utf8(back.name).unwrap(), "Calle Alcalá 5");
}

#[test]
fn rejects_lines_that_are_not_records() {
    assert_eq!(decode_record(b""), None);
    assert_eq!(decode_record(b"{}"), None);
    assert_eq!(decode_record(b"{\"name\":\"x\"}"), None);
    assert_eq!(
        decode_record(b"{\"name\":\"x\",\"status\":\"bogus\",\"price\":\"\",\"query\":\"y\"}"),
        None
    );
    // Unterminated string field.
    assert_eq!(decode_record(b"{\"name\":\"x"), None);
    // Trailing garbage after the closing brace.
    let mut line = encode_record(&record("x", Status::Active, "", "y"));
    line.push(b'!');
    assert_eq!(decode_record(line.as_slice()), None);
}

#[test]
fn decodes_query_lines() {
    let rec = decode_query_record(br#"{"name":"123 Main St","query":"123-main-st"}"#)
        .expect("query line must decode");
    assert_eq!(rec.name, b"123 Main St".to_vec());
    assert_eq!(rec.query, b"123-main-st".to_vec());
}

#[test]
fn rejects_query_lines_of_the_wrong_shape() {
    assert_eq!(decode_query_record(b""), None);
    assert_eq!(decode_query_record(br#"{"name":"x"}"#), None);
    assert_eq!(
        decode_query_record(br#"{"name":"x","status":"active","price":"","query":"y"}"#),
        None
    );
}

#[test]
fn decodes_escaped_query_names() {
    let rec = decode_query_record(br#"{"name":"the \"old\" place","query":"old-place"}"#)
        .expect("query line must decode");
    assert_eq!(rec.name, b"the \"old\" place".to_vec());
}
