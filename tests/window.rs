use audio_visualizer::window::{RingBuffer, TumblingWindow};

#[test]
fn ring_starts_silent() {
    let ring = RingBuffer::new(4);
    assert_eq!(ring.ordered_samples(), vec![0, 0, 0, 0]);
    assert_eq!(ring.capacity_len(), 4);
}

#[test]
fn ring_reads_out_in_order_after_wrapping_twice() {
    let mut ring = RingBuffer::new(4);
    ring.push_samples(&[1, 2, 3]);
    assert_eq!(ring.ordered_samples(), vec![0, 1, 2, 3]);
    ring.push_samples(&[4, 5, 6, 7]);
    assert_eq!(ring.ordered_samples(), vec![4, 5, 6, 7]);
    ring.push_samples(&[8, 9, 10]);
    let out = ring.ordered_samples();
    assert_eq!(out, vec![7, 8, 9, 10]);
    assert_eq!(out.len(), 4);
    for s in 11..=23 {
        ring.push(s);
        let out = ring.ordered_samples();
        assert_eq!(out, vec![s - 3, s - 2, s - 1, s]);
    }
}

#[test]
fn ring_keeps_last_of_a_long_chunk() {
    let mut ring = RingBuffer::new(3);
    let data: Vec<i16> = (1..=10).collect();
    ring.push_samples(&data);
    assert_eq!(ring.ordered_samples(), vec![8, 9, 10]);
}

#[test]
fn tumbling_hands_out_complete_windows() {
    let mut w = TumblingWindow::new(3);
    let out = w.push_samples(&[1, 2, 3, 4, 5]);
    assert_eq!(out, vec![vec![1, 2, 3]]);
    let out = w.push_samples(&[6]);
    assert_eq!(out, vec![vec![4, 5, 6]]);
    let out = w.push_samples(&[7, 8]);
    assert!(out.is_empty());
    let out = w.push_samples(&[9, 10, 11, 12, 13, 14, 15]);
    assert_eq!(out, vec![vec![7, 8, 9], vec![10, 11, 12], vec![13, 14, 15]]);
}

#[test]
fn tumbling_skips_a_partial_tail() {
    let mut w = TumblingWindow::new(1411);
    let samples = vec![5i16; 1411 * 2 + 100];
    let out = w.push_samples(&samples);
    assert_eq!(out.len(), 2);
    assert!(out.iter().all(|c| c.len() == 1411));
}

#[test]
fn ring_is_full_once_a_window_was_written() {
    let mut ring = RingBuffer::new(4);
    assert!(!ring.is_full());
    ring.push_samples(&[1, 2, 3]);
    assert!(!ring.is_full());
    ring.push(4);
    assert!(ring.is_full());
    ring.push_samples(&[5, 6, 7, 8, 9]);
    assert!(ring.is_full());
    let mut big = RingBuffer::new(3);
    big.push_samples(&[1, 2, 3, 4, 5]);
    assert!(big.is_full());
}
