use abby_vm::utils::{bytes_to_u256, format_hex_bytes, format_hex_u256, safe_resize, u256_to_bytes, u256_to_bytes32};
use abby_vm::word::Word;

#[test]
fn test_bytes_to_u256() {
    let bytes = vec![0x01, 0x23, 0x45];
    let result = bytes_to_u256(&bytes);
    assert_eq!(result, Word::from_u64(0x012345));
}

#[test]
fn test_u256_to_bytes() {
    let value = Word::from_u64(0x012345);
    let bytes = u256_to_bytes(value);
    assert_eq!(bytes.len(), 32);
    assert_eq!(&bytes[29..], &[0x01, 0x23, 0x45]);
}

#[test]
fn test_safe_resize() {
    let mut vec = vec![1, 2, 3];
    assert!(safe_resize(&mut vec, 5, 10).is_ok());
    assert_eq!(vec.len(), 5);
    assert_eq!(vec, vec![1, 2, 3, 0, 0]);

    let mut vec2 = vec![1, 2, 3];
    assert!(safe_resize(&mut vec2, 15, 10).is_err());
}

#[test]
fn test_format_hex() {
    let value = Word::from_u64(0x123456);
    assert_eq!(format_hex_u256(value), "0x123456");

    let bytes = vec![0x12, 0x34, 0x56];
    assert_eq!(format_hex_bytes(&bytes), "0x123456");
}

#[test]
fn hex_edge_cases() {
    assert_eq!(format_hex_u256(Word::zero()), "0x0");
    assert_eq!(format_hex_bytes(&[]), "0x");
    assert_eq!(format_hex_bytes(&[0x00, 0xab]), "0x00ab");
    let max = Word { l0: u64::MAX, l1: u64::MAX, l2: u64::MAX, l3: u64::MAX };
    assert_eq!(format_hex_u256(max), format!("0x{}", "f".repeat(64)));
}

#[test]
fn bytes_round_trip() {
    let w = Word { l0: 0x1122334455667788, l1: 0x99, l2: 0, l3: 0xff00000000000000 };
    let bytes = u256_to_bytes(w);
    assert_eq!(bytes[0], 0xff);
    assert_eq!(bytes[31], 0x88);
    assert_eq!(bytes_to_u256(&bytes), w);
    assert_eq!(u256_to_bytes32(w).to_vec(), bytes);
    let long: Vec<u8> = (0u8..40).collect();
    assert_eq!(u256_to_bytes(bytes_to_u256(&long)), (0u8..32).collect::<Vec<u8>>());
}

#[test]
fn safe_resize_shrinks() {
    let mut v = vec![1, 2, 3, 4];
    assert!(safe_resize(&mut v, 2, 2).is_ok());
    assert_eq!(v, vec![1, 2]);
}
