use distmutex::request::{parse_request, Operation, ProtocolViolation, Request};

#[test]
fn round_trip_request() {
    let f = Request { operation: Operation::Request, id: 42 };
    assert_eq!(Request::decode(&f.as_bytes()), Ok(f));
}

#[test]
fn round_trip_grant() {
    let f = Request { operation: Operation::Grant, id: 0 };
    assert_eq!(Request::decode(&f.as_bytes()), Ok(f));
}

#[test]
fn round_trip_release() {
    let f = Request { operation: Operation::Release, id: u32::MAX };
    assert_eq!(Request::decode(&f.as_bytes()), Ok(f));
}

#[test]
fn encode_exact_bytes() {
    let f = Request { operation: Operation::Request, id: 0x01020304 };
    assert_eq!(f.as_bytes(), [1, 1, 2, 3, 4]);
    let g = Request { operation: Operation::Grant, id: 0 };
    assert_eq!(g.as_bytes(), [2, 0, 0, 0, 0]);
    let r = Request { operation: Operation::Release, id: u32::MAX };
    assert_eq!(r.as_bytes(), [3, 255, 255, 255, 255]);
}

#[test]
fn encode_big_endian_order() {
    let f = Request { operation: Operation::Grant, id: 1 };
    assert_eq!(f.as_bytes(), [2, 0, 0, 0, 1]);
}

#[test]
fn decode_rejects_opcode_zero() {
    assert_eq!(Request::decode(&[0, 0, 0, 0, 7]), Err(ProtocolViolation));
}

#[test]
fn decode_rejects_opcode_four_and_up() {
    assert_eq!(Request::decode(&[4, 0, 0, 0, 7]), Err(ProtocolViolation));
    assert_eq!(Request::decode(&[255, 1, 2, 3, 4]), Err(ProtocolViolation));
}

#[test]
fn parse_request_accepts_expected_operation() {
    let f = Request { operation: Operation::Request, id: 9 };
    assert_eq!(parse_request(&f.as_bytes(), Operation::Request), Some(f));
}

#[test]
fn parse_request_rejects_unexpected_operation() {
    let f = Request { operation: Operation::Release, id: 9 };
    assert_eq!(parse_request(&f.as_bytes(), Operation::Request), None);
}

#[test]
fn parse_request_rejects_undecodable() {
    assert_eq!(parse_request(&[0, 0, 0, 0, 9], Operation::Request), None);
}
