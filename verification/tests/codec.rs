use upload_worker::job::FileUploadJob;

fn meta(pairs: &[(&str, &str)]) -> Vec<(String, String)> {
    let mut v: Vec<(String, String)> = Vec::new();
    for (k, val) in pairs {
        v.push((k.to_string(), val.to_string()));
    }
    v
}

fn sample_job() -> FileUploadJob {
    FileUploadJob {
        id: 0xa1a2a3a4b1b2c1c2d1d2d3d4d5d6d7d8,
        esign_id: "E1".to_string(),
        document_url: "http://ok/1".to_string(),
        document_name: "contract.pdf".to_string(),
        document_type: "pdf".to_string(),
        retry_count: 2,
        created_at: 1700000000000,
        updated_at: 1700000000500,
        metadata: meta(&[("error_type", "rate_limited"), ("source", "api")]),
    }
}

fn assert_jobs_equal(a: &FileUploadJob, b: &FileUploadJob) {
    assert_eq!(a.id, b.id);
    assert_eq!(a.esign_id, b.esign_id);
    assert_eq!(a.document_url, b.document_url);
    assert_eq!(a.document_name, b.document_name);
    assert_eq!(a.document_type, b.document_type);
    assert_eq!(a.retry_count, b.retry_count);
    assert_eq!(a.created_at, b.created_at);
    assert_eq!(a.updated_at, b.updated_at);
    assert_eq!(a.metadata, b.metadata);
}

#[test]
fn round_trip_plain_job() {
    let j = sample_job();
    let encoded = j.to_json();
    let back = FileUploadJob::from_json(&encoded).unwrap();
    assert_jobs_equal(&j, &back);
}

#[test]
fn encoded_form_is_exact() {
    let j = FileUploadJob {
        id: 7,
        esign_id: "E".to_string(),
        document_url: "u".to_string(),
        document_name: "n".to_string(),
        document_type: "t".to_string(),
        retry_count: 0,
        created_at: 5,
        updated_at: -3,
        metadata: meta(&[("a", "b")]),
    };
    assert_eq!(
        j.to_json(),
        "{\"id\":\"00000000-0000-0000-0000-000000000007\",\"esign_id\":\"E\",\
         \"document_url\":\"u\",\"document_name\":\"n\",\"document_type\":\"t\",\
         \"retry_count\":0,\"created_at\":5,\"updated_at\":-3,\"metadata\":{\"a\":\"b\"}}"
    );
}

#[test]
fn round_trip_escaped_strings() {
    let mut j = sample_job();
    j.document_name = "a \"quoted\" name \\ with backslashes \\\\".to_string();
    j.esign_id = "\\\"".to_string();
    j.metadata = meta(&[("key \"q\"", "value \\ v")]);
    let back = FileUploadJob::from_json(&j.to_json()).unwrap();
    assert_jobs_equal(&j, &back);
}

#[test]
fn round_trip_empty_strings_and_empty_metadata() {
    let j = FileUploadJob {
        id: 0,
        esign_id: String::new(),
        document_url: String::new(),
        document_name: String::new(),
        document_type: String::new(),
        retry_count: 0,
        created_at: 0,
        updated_at: 0,
        metadata: Vec::new(),
    };
    let encoded = j.to_json();
    let back = FileUploadJob::from_json(&encoded).unwrap();
    assert_jobs_equal(&j, &back);
}

#[test]
fn round_trip_extreme_values() {
    let j = FileUploadJob {
        id: u128::MAX,
        esign_id: "E".to_string(),
        document_url: "u".to_string(),
        document_name: "n".to_string(),
        document_type: "t".to_string(),
        retry_count: u32::MAX,
        created_at: i64::MIN,
        updated_at: i64::MAX,
        metadata: Vec::new(),
    };
    let back = FileUploadJob::from_json(&j.to_json()).unwrap();
    assert_jobs_equal(&j, &back);
}

#[test]
fn round_trip_unicode_strings() {
    let mut j = sample_job();
    j.document_name = "f\u{00fc}r \u{4e16}\u{754c} \u{1f600}".to_string();
    let back = FileUploadJob::from_json(&j.to_json()).unwrap();
    assert_jobs_equal(&j, &back);
}

#[test]
fn decode_rejects_garbage() {
    assert!(FileUploadJob::from_json("not an encoded job").is_err());
    assert!(FileUploadJob::from_json("").is_err());
    assert!(FileUploadJob::from_json("{}").is_err());
}

#[test]
fn decode_rejects_truncated_text() {
    let j = sample_job();
    let encoded = j.to_json();
    let truncated: String = encoded.chars().take(encoded.chars().count() - 1).collect();
    assert!(FileUploadJob::from_json(&truncated).is_err());
}

#[test]
fn decode_rejects_trailing_text() {
    let j = sample_job();
    let mut encoded = j.to_json();
    encoded.push(' ');
    assert!(FileUploadJob::from_json(&encoded).is_err());
}

#[test]
fn decode_rejects_out_of_range_numbers() {
    // One more than the largest retry counter.
    let text = "{\"id\":\"00000000-0000-0000-0000-000000000001\",\"esign_id\":\"E\",\
                \"document_url\":\"u\",\"document_name\":\"n\",\
                \"document_type\":\"t\",\"retry_count\":4294967296,\"created_at\":0,\
                \"updated_at\":0,\"metadata\":{}}";
    assert!(FileUploadJob::from_json(text).is_err());
}

#[test]
fn decode_tolerates_unknown_members() {
    // Unknown members may stand before the first field, between fields,
    // and before the closing brace, with values of any JSON shape.
    let text = "{\"v\":2,\"id\":\"00000000-0000-0000-0000-000000000007\",\"esign_id\":\"E\",\
                \"origin\":\"api\",\
                \"document_url\":\"u\",\"flags\":[true,false,null,{\"x\":[1,2]},\"s\"],\
                \"document_name\":\"n\",\
                \"document_type\":\"t\",\"retry_count\":1,\
                \"weight\":-99999999999999999999999999999999999999999,\
                \"created_at\":5,\"updated_at\":6,\
                \"hints\":{\"a\":{\"b\":null}},\"metadata\":{\"k\":\"v\"},\"trailer\":\"z\"}";
    let j = FileUploadJob::from_json(text).unwrap();
    assert_eq!(j.id, 7);
    assert_eq!(j.esign_id, "E");
    assert_eq!(j.document_url, "u");
    assert_eq!(j.retry_count, 1);
    assert_eq!(j.created_at, 5);
    assert_eq!(j.updated_at, 6);
    assert_eq!(j.metadata, vec![("k".to_string(), "v".to_string())]);
}

#[test]
fn decode_rejects_missing_fields_despite_tolerance() {
    // Tolerated members never substitute for a required field.
    let text = "{\"id\":\"00000000-0000-0000-0000-000000000007\",\"esign_id\":\"E\",\
                \"document_url\":\"u\",\
                \"document_name\":\"n\",\"document_type\":\"t\",\
                \"created_at\":5,\"updated_at\":6,\"metadata\":{}}";
    assert!(FileUploadJob::from_json(text).is_err());
}

#[test]
fn identifier_wire_form_is_the_hyphenated_uuid() {
    let mut j = sample_job();
    j.id = 0xa1a2a3a4b1b2c1c2d1d2d3d4d5d6d7d8;
    let encoded = j.to_json();
    assert!(encoded.contains("\"id\":\"a1a2a3a4-b1b2-c1c2-d1d2-d3d4d5d6d7d8\""));
    let back = FileUploadJob::from_json(&encoded).unwrap();
    assert_eq!(back.id, j.id);
}

#[test]
fn decode_rejects_malformed_identifier() {
    // A bare number is no longer the identifier's wire form.
    let text = "{\"id\":7,\"esign_id\":\"E\",\"document_url\":\"u\",\"document_name\":\"n\",\
                \"document_type\":\"t\",\"retry_count\":0,\"created_at\":0,\
                \"updated_at\":0,\"metadata\":{}}";
    assert!(FileUploadJob::from_json(text).is_err());
    // A group with a non-hexadecimal digit is refused.
    let text2 = "{\"id\":\"0000000g-0000-0000-0000-000000000007\",\"esign_id\":\"E\",\
                \"document_url\":\"u\",\"document_name\":\"n\",\"document_type\":\"t\",\
                \"retry_count\":0,\"created_at\":0,\"updated_at\":0,\"metadata\":{}}";
    assert!(FileUploadJob::from_json(text2).is_err());
}

#[test]
fn decode_accepts_timestamps_in_their_string_form() {
    // The timestamps may come as quoted calendar strings, as an outside
    // producer writes them; they decode to epoch milliseconds.
    let text = "{\"id\":\"00000000-0000-0000-0000-000000000007\",\"esign_id\":\"E\",\
                \"document_url\":\"u\",\"document_name\":\"n\",\"document_type\":\"t\",\
                \"retry_count\":0,\
                \"created_at\":\"2000-03-01T00:00:00Z\",\
                \"updated_at\":\"2023-11-14T12:00:00.123456789Z\",\
                \"metadata\":{}}";
    let j = FileUploadJob::from_json(text).unwrap();
    assert_eq!(j.created_at, 951868800000);
    // Digits beyond the millisecond are cut off.
    assert_eq!(j.updated_at, 1699963200123);
}

#[test]
fn string_timestamps_cover_the_calendar() {
    let cases = [
        ("1970-01-01T00:00:00Z", 0i64),
        ("1970-01-02T00:00:01.5Z", 86401500),
        ("0001-01-01T00:00:00Z", -62135596800000),
        ("9999-12-31T23:59:59.999Z", 253402300799999),
    ];
    for (iso, expected) in cases {
        let text = format!(
            "{{\"id\":\"00000000-0000-0000-0000-000000000007\",\"esign_id\":\"E\",\
             \"document_url\":\"u\",\"document_name\":\"n\",\"document_type\":\"t\",\
             \"retry_count\":0,\"created_at\":\"{iso}\",\"updated_at\":0,\"metadata\":{{}}}}"
        );
        let j = FileUploadJob::from_json(&text).unwrap();
        assert_eq!(j.created_at, expected, "for {iso}");
    }
}

#[test]
fn decode_rejects_malformed_string_timestamps() {
    for bad in ["2023-13-01T00:00:00Z", "2023-11-14T12:00:00", "2023-11-14 12:00:00Z",
        "2023-11-14T12:00:00+01:00"]
    {
        let text = format!(
            "{{\"id\":\"00000000-0000-0000-0000-000000000007\",\"esign_id\":\"E\",\
             \"document_url\":\"u\",\"document_name\":\"n\",\"document_type\":\"t\",\
             \"retry_count\":0,\"created_at\":\"{bad}\",\"updated_at\":0,\"metadata\":{{}}}}"
        );
        assert!(FileUploadJob::from_json(&text).is_err(), "for {bad}");
    }
}

#[test]
fn decode_error_is_the_json_kind() {
    match FileUploadJob::from_json("nonsense") {
        Err(upload_worker::errors::WorkerError::Json(_)) => {}
        _ => panic!("a decode failure must surface as the decode error kind"),
    }
}
