use secret_vpn::{decode_record, encode_record, PidInfo};

#[test]
fn encoding_is_exact_json() {
    let info = PidInfo { pid: 123, start_time: 456 };
    let enc = encode_record(&info);
    assert_eq!(enc.as_slice(), b"{\"pid\":123,\"start_time\":456}");
}

#[test]
fn encoding_single_digits() {
    let info = PidInfo { pid: 7, start_time: 0 };
    let enc = encode_record(&info);
    assert_eq!(enc.as_slice(), b"{\"pid\":7,\"start_time\":0}");
}

#[test]
fn round_trip_small() {
    let info = PidInfo { pid: 1, start_time: 0 };
    let back = decode_record(encode_record(&info).as_slice());
    assert_eq!(back, Some(info));
}

#[test]
fn round_trip_typical() {
    let info = PidInfo { pid: 48213, start_time: 1735689600 };
    let back = decode_record(encode_record(&info).as_slice());
    assert_eq!(back, Some(info));
}

#[test]
fn round_trip_extremes() {
    let info = PidInfo { pid: i32::MAX, start_time: u64::MAX };
    let back = decode_record(encode_record(&info).as_slice());
    assert_eq!(back, Some(info));
}

#[test]
fn decode_exact_input() {
    let got = decode_record(b"{\"pid\":4242,\"start_time\":99}");
    assert_eq!(got, Some(PidInfo { pid: 4242, start_time: 99 }));
}

#[test]
fn decode_rejects_empty_and_garbage() {
    assert_eq!(decode_record(b""), None);
    assert_eq!(decode_record(b"not json at all"), None);
    assert_eq!(decode_record(b"\x00\xff\x17garbage\x7f"), None);
}

#[test]
fn decode_rejects_wrong_frame() {
    assert_eq!(decode_record(b"{\"pid\":12,\"start_time\":3"), None);
    assert_eq!(decode_record(b"\"pid\":12,\"start_time\":3}"), None);
    assert_eq!(decode_record(b"{\"pid\":12}"), None);
    assert_eq!(decode_record(b"{\"start_time\":3,\"pid\":12}"), None);
}

#[test]
fn decode_rejects_bad_numbers() {
    assert_eq!(decode_record(b"{\"pid\":,\"start_time\":3}"), None);
    assert_eq!(decode_record(b"{\"pid\":012,\"start_time\":3}"), None);
    assert_eq!(decode_record(b"{\"pid\":0,\"start_time\":3}"), None);
    assert_eq!(decode_record(b"{\"pid\":-5,\"start_time\":3}"), None);
    assert_eq!(decode_record(b"{\"pid\":2147483648,\"start_time\":3}"), None);
    assert_eq!(decode_record(b"{\"pid\":12,\"start_time\":}"), None);
    assert_eq!(decode_record(b"{\"pid\":12,\"start_time\":00}"), None);
    assert_eq!(decode_record(b"{\"pid\":12,\"start_time\":18446744073709551616}"), None);
}

#[test]
fn decode_accepts_boundary_numbers() {
    assert_eq!(
        decode_record(b"{\"pid\":2147483647,\"start_time\":18446744073709551615}"),
        Some(PidInfo { pid: 2147483647, start_time: 18446744073709551615 })
    );
}

#[test]
fn decode_rejects_padding_and_trailing_bytes() {
    assert_eq!(decode_record(b" {\"pid\":12,\"start_time\":3}"), None);
    assert_eq!(decode_record(b"{\"pid\": 12,\"start_time\":3}"), None);
    assert_eq!(decode_record(b"{\"pid\":12, \"start_time\":3}"), None);
    assert_eq!(decode_record(b"{\"pid\":12,\"start_time\":3} "), None);
    assert_eq!(decode_record(b"{\"pid\":12,\"start_time\":3}}"), None);
}

#[test]
fn encoding_parses_as_real_json() {
    let info = PidInfo { pid: 1234, start_time: 1700000000 };
    let enc = encode_record(&info);
    let v: serde_json::Value = serde_json::from_slice(enc.as_slice()).unwrap();
    assert_eq!(v["pid"].as_i64(), Some(1234));
    assert_eq!(v["start_time"].as_u64(), Some(1700000000));
    let reprinted = serde_json::to_string(&v).unwrap();
    assert_eq!(reprinted.as_bytes(), enc.as_slice());
}
