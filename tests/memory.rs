use wasmer_jni::memory::{u64_from_le, u64_to_le, Memory, MemoryError};

#[test]
fn write_is_little_endian() {
    let mut heap = [0u8; 8];
    assert_eq!(heap[..].write_le_u64(0, 0x0102030405060708), Ok(()));
    assert_eq!(heap, [0x08, 0x07, 0x06, 0x05, 0x04, 0x03, 0x02, 0x01]);
}

#[test]
fn read_decodes_little_endian() {
    let heap = [0x08u8, 0x07, 0x06, 0x05, 0x04, 0x03, 0x02, 0x01, 0xff];
    assert_eq!(heap[..].read_le_u64(0), Ok(0x0102030405060708));
    assert_eq!(heap[..].read_le_u64(1), Ok(0xff01020304050607));
}

#[test]
fn write_then_read_round_trips() {
    let mut heap = vec![0u8; 32];
    for (ptr, v) in [(0u32, 0u64), (3, u64::MAX), (24, 0x8000_0000_0000_0001), (11, 42)] {
        assert_eq!(heap[..].write_le_u64(ptr, v), Ok(()));
        assert_eq!(heap[..].read_le_u64(ptr), Ok(v));
    }
}

#[test]
fn write_leaves_other_bytes_alone() {
    let mut heap = vec![0xaau8; 12];
    heap[..].write_le_u64(2, 0).unwrap();
    assert_eq!(heap, vec![0xaa, 0xaa, 0, 0, 0, 0, 0, 0, 0, 0, 0xaa, 0xaa]);
}

#[test]
fn access_at_the_end_is_in_bounds() {
    let mut heap = vec![0u8; 16];
    assert_eq!(heap[..].write_le_u64(8, 7), Ok(()));
    assert_eq!(heap[..].read_le_u64(8), Ok(7));
}

#[test]
fn access_past_the_end_fails() {
    let heap = vec![1u8; 16];
    assert_eq!(heap[..].read_le_u64(9), Err(MemoryError::Other("read out of heap bounds")));
    let empty: Vec<u8> = Vec::new();
    assert_eq!(empty[..].read_le_u64(0), Err(MemoryError::Other("read out of heap bounds")));
}

#[test]
fn failed_write_changes_nothing() {
    let mut heap = vec![5u8; 10];
    assert_eq!(
        heap[..].write_le_u64(3, u64::MAX),
        Err(MemoryError::Other("write out of heap bounds"))
    );
    assert_eq!(heap, vec![5u8; 10]);
}

#[test]
fn last_address_does_not_wrap() {
    let heap = vec![0u8; 64];
    assert_eq!(heap[..].read_le_u64(0xFFFF_FFFF), Err(MemoryError::Other("read out of heap bounds")));
    let mut heap = vec![0u8; 64];
    assert_eq!(
        heap[..].write_le_u64(0xFFFF_FFFC, 1),
        Err(MemoryError::Other("write out of heap bounds"))
    );
}

#[test]
fn size_is_the_length() {
    assert_eq!(vec![0u8; 65536][..].size(), 65536);
    let empty: [u8; 0] = [];
    assert_eq!(empty[..].size(), 0);
}

#[test]
fn byte_codec_matches_std() {
    let v = 0xdead_beef_0123_4567u64;
    assert_eq!(u64_to_le(v), v.to_le_bytes());
    let b = v.to_le_bytes();
    assert_eq!(u64_from_le(b[0], b[1], b[2], b[3], b[4], b[5], b[6], b[7]), v);
}
