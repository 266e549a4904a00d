use pinger::FixedRingBuffer;

#[test]
pub fn test_basic_push() {
    let mut ringbuffer = FixedRingBuffer::new(3);
    let expect = vec![
        vec![0],
        vec![0, 1],
        vec![0, 1, 2],
        vec![1, 2, 3],
        vec![2, 3, 4],
        vec![3, 4, 5],
        vec![4, 5, 6],
        vec![5, 6, 7],
        vec![6, 7, 8],
        vec![7, 8, 9],
    ];
    for (x, expect) in (0..10).zip(expect.iter()) {
        ringbuffer.push(x);
        assert_eq!(ringbuffer.as_slice(), expect.as_slice());
    }
}

#[test]
fn ring_buffer_of_one_keeps_the_last() {
    let mut r = FixedRingBuffer::new(1);
    assert_eq!(r.len(), 0);
    for x in 0..5u64 {
        r.push(x);
        assert_eq!(r.as_slice(), &[x]);
        assert_eq!(r.len(), 1);
    }
    assert_eq!(r.iter().copied().collect::<Vec<u64>>(), vec![4]);
}
