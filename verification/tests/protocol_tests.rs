use luminar::protocol::REQUEST_BUFFER_SIZE;
use luminar::protocol::acknowledgement;
use luminar::protocol::trim_request;
use luminar::units::sat_add_u128;
use luminar::units::widening_mul;

#[test]
fn request_buffer_size_is_fixed() {
    assert_eq!(REQUEST_BUFFER_SIZE, 512);
}

#[test]
fn trim_removes_nul_padding_on_both_ends() {
    let buf = vec![0u8, 0, b's', b't', b'a', b't', b'u', b's', 0, 0, 0];
    assert_eq!(trim_request(&buf), b"status".to_vec());
}

#[test]
fn trim_keeps_interior_nuls() {
    let buf = vec![0u8, b'a', 0, b'b', 0];
    assert_eq!(trim_request(&buf), vec![b'a', 0, b'b']);
}

#[test]
fn trim_of_pure_padding_is_empty() {
    assert_eq!(trim_request(&vec![0u8; 16]), Vec::<u8>::new());
    assert_eq!(trim_request(&Vec::new()), Vec::<u8>::new());
}

#[test]
fn trim_of_unpadded_request_is_identity() {
    let buf = b"status".to_vec();
    assert_eq!(trim_request(&buf), buf);
}

#[test]
fn every_request_gets_the_fixed_acknowledgement() {
    assert_eq!(acknowledgement(), "received your request");
}

#[test]
fn accumulator_addition_saturates_at_the_top() {
    assert_eq!(sat_add_u128(1, 2), 3);
    assert_eq!(sat_add_u128(u128::MAX - 1, 1), u128::MAX);
    assert_eq!(sat_add_u128(u128::MAX, 1), u128::MAX);
    assert_eq!(sat_add_u128(u128::MAX, u128::MAX), u128::MAX);
}

#[test]
fn delta_products_never_overflow() {
    assert_eq!(widening_mul(u64::MAX, u64::MAX), (u64::MAX as u128) * (u64::MAX as u128));
    assert_eq!(widening_mul(0, u64::MAX), 0);
    assert_eq!(widening_mul(1000, 2000), 2_000_000);
}
