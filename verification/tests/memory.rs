use demikernel::runtime::memory::DemiBuffer;

#[test]
fn a_new_buffer_is_zeroed() {
    let buffer = DemiBuffer::new_with_headroom(4, 42);
    assert_eq!(buffer.as_slice(), &[0, 0, 0, 0]);
    assert_eq!(buffer.len(), 4);
    assert_eq!(buffer.headroom(), 42);
    assert!(!buffer.is_dpdk_allocated());
}

#[test]
fn adjust_and_prepend_undo_each_other() {
    let mut buffer = DemiBuffer::from_storage(vec![1, 2, 3, 4, 5, 6], 2, 3, false);
    assert_eq!(buffer.as_slice(), &[3, 4, 5]);
    buffer.adjust(2).unwrap();
    assert_eq!(buffer.as_slice(), &[5]);
    assert_eq!(buffer.headroom(), 4);
    buffer.prepend(2).unwrap();
    assert_eq!(buffer.as_slice(), &[3, 4, 5]);
    buffer.prepend(1).unwrap();
    buffer.adjust(1).unwrap();
    assert_eq!(buffer.as_slice(), &[3, 4, 5]);
    assert_eq!(buffer.headroom(), 2);
}

#[test]
fn trim_cuts_the_end() {
    let mut buffer = DemiBuffer::from_storage(vec![1, 2, 3, 4], 0, 4, false);
    buffer.trim(1).unwrap();
    assert_eq!(buffer.as_slice(), &[1, 2, 3]);
    buffer.trim(3).unwrap();
    assert_eq!(buffer.len(), 0);
    let fail = buffer.trim(1).unwrap_err();
    assert_eq!(fail.errno, libc::EINVAL);
    assert_eq!(fail.cause, "tried to remove more bytes than are present");
}

#[test]
fn there_must_be_enough_bytes() {
    let mut buffer = DemiBuffer::from_storage(vec![1, 2, 3, 4], 1, 2, false);
    let fail = buffer.adjust(3).unwrap_err();
    assert_eq!(fail.errno, libc::EINVAL);
    assert_eq!(fail.cause, "tried to remove more bytes than are present");
    let fail = buffer.prepend(2).unwrap_err();
    assert_eq!(fail.errno, libc::EINVAL);
    assert_eq!(fail.cause, "tried to prepend more bytes than are allowed");
    assert_eq!(buffer.as_slice(), &[2, 3]);
}

#[test]
fn bytes_are_overwritten() {
    let mut buffer = DemiBuffer::new_with_headroom(3, 2);
    buffer.copy_from_slice(&[7, 8, 9]);
    buffer.set(1, 0);
    assert_eq!(buffer.get(0), 7);
    assert_eq!(buffer.as_slice(), &[7, 0, 9]);
    buffer.attach(&[5, 6]);
    assert_eq!(buffer.as_slice(), &[5, 6, 7, 0, 9]);
    assert_eq!(buffer.headroom(), 0);
}

#[test]
fn only_pool_memory_becomes_a_message_buffer() {
    assert!(DemiBuffer::new_with_headroom(3, 2).into_mbuf().is_none());
    let buffer = DemiBuffer::from_storage(vec![1, 2, 3], 1, 2, true);
    let mbuf = buffer.into_mbuf().unwrap();
    assert_eq!(mbuf.len(), 2);
    assert_eq!(mbuf.as_slice(), &[2, 3]);
    let buffer = DemiBuffer::from_mbuf(mbuf);
    assert!(buffer.is_dpdk_allocated());
    assert_eq!(buffer.as_slice(), &[2, 3]);
    assert_eq!(buffer.headroom(), 1);
}
