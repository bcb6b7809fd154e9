use sworker::random::{SrdRandomBuffer, SRD_BUFFER_SIZE};

#[test]
fn the_buffer_starts_as_zeros_awaiting_random_bytes() {
    let b = SrdRandomBuffer::new();
    assert!(b.needs_random());
    assert_eq!(b.data.len(), SRD_BUFFER_SIZE);
    assert!(b.data.iter().all(|x| *x == 0));
    assert_eq!(SRD_BUFFER_SIZE, 1048576);
}

#[test]
fn the_buffer_is_filled_once_only() {
    let mut b = SrdRandomBuffer::new();
    assert!(b.fill_once(vec![7u8; SRD_BUFFER_SIZE]));
    assert!(!b.needs_random());
    assert!(!b.fill_once(vec![9u8; SRD_BUFFER_SIZE]));
    assert!(b.data.iter().all(|x| *x == 7));
}
