use nbd::blocks::{Blocks, MemBlocks};
use nbd::proto::IoErrorKind;

#[test]
fn test_mem_blocks() {
    let data = vec![1u8; 10];
    let mut file = MemBlocks::new(data);

    let mut buf = [0u8; 3];
    file.read_at(&mut buf, 7).unwrap();
    assert_eq!(buf, [1, 1, 1]);

    file.write_at(&[3, 4], 8).unwrap();

    file.read_at(&mut buf, 7).unwrap();
    assert_eq!(buf, [1, 3, 4]);
}

#[test]
fn mem_blocks_refuse_ranges_past_the_end() {
    let mut file = MemBlocks::new(vec![5u8; 10]);
    let mut buf = [0u8; 3];
    assert_eq!(file.read_at(&mut buf, 8), Err(IoErrorKind::InvalidInput));
    assert_eq!(buf, [0, 0, 0]);
    assert_eq!(file.read_at(&mut buf, u64::MAX), Err(IoErrorKind::InvalidInput));
    assert_eq!(file.write_at(&[1, 2], 9), Err(IoErrorKind::InvalidInput));
    file.read_at(&mut buf, 7).unwrap();
    assert_eq!(buf, [5, 5, 5]);
    assert_eq!(file.size(), Ok(10));
}

#[test]
fn fresh_memory_reads_its_initial_pattern() {
    let initial: Vec<u8> = (0..=255u8).collect();
    let file = MemBlocks::new(initial.clone());
    for off in 0..250usize {
        let mut buf = [0u8; 6];
        file.read_at(&mut buf, off as u64).unwrap();
        assert_eq!(&buf[..], &initial[off..off + 6]);
    }
}

#[test]
fn write_flush_then_read_returns_the_data() {
    let mut file = MemBlocks::new(vec![0u8; 64]);
    file.write_at(&[4, 5, 6, 7], 30).unwrap();
    file.flush().unwrap();
    let mut buf = [0u8; 4];
    file.read_at(&mut buf, 30).unwrap();
    assert_eq!(buf, [4, 5, 6, 7]);
    let mut edge = [0u8; 2];
    file.read_at(&mut edge, 62).unwrap();
    assert_eq!(edge, [0, 0]);
}
