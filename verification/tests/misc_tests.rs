use radio_data::misc::{BufWriter, RingBuffer, SampleRate, Soon, ValueRepeat};

#[test]
fn test_value_repeat_iter() {
    let mut iter = ValueRepeat::new(3, vec![1, 2, 3]);

    for i in [1, 1, 1, 2, 2, 2, 3, 3, 3] {
        assert_eq!(i, iter.next().unwrap());
    }
}

#[test]
fn test_ring_buffer_real() {
    let mut ring = RingBuffer::<i64, 10>::new();
    ring.push(2);
    ring.push(4);

    assert_eq!(ring.values(), vec![2, 4]);
    assert_eq!(ring.min(), 2);
    assert_eq!(ring.max(), 4);
    assert_eq!(ring.avg(), 3);
}

#[test]
fn test_ring_buffer_real_full() {
    let mut ring = RingBuffer::<i64, 10>::new();
    for i in 0..10 {
        ring.push(i as i64);
    }

    assert_eq!(ring.values(), vec![0, 1, 2, 3, 4, 5, 6, 7, 8, 9]);
}

#[test]
fn test_ring_buffer_wraps() {
    let mut ring = RingBuffer::<i64, 4>::new();
    for i in 0..6 {
        ring.push(i as i64);
    }
    // After wrapping, the storage holds the last writes in slot order.
    assert_eq!(ring.values(), vec![4, 5, 2, 3]);
    assert_eq!(ring.min(), 2);
    assert_eq!(ring.max(), 5);
}

#[test]
fn test_value_repeat_exhausts() {
    let mut iter = ValueRepeat::new(2, vec![7]);
    assert_eq!(iter.next(), Some(7));
    assert_eq!(iter.next(), Some(7));
    assert_eq!(iter.next(), None);
    assert_eq!(iter.next(), None);
}

#[test]
fn test_sample_rate() {
    let sr = SampleRate::new(44100, 48000);
    assert_eq!(sr.input, 44100);
    assert_eq!(sr.output, 48000);

    let sr = SampleRate::from_hz(8000);
    assert_eq!(sr.input, 8000);
    assert_eq!(sr.output, 8000);

    let sr: SampleRate = 22050.into();
    assert_eq!(sr.input, 22050);
    assert_eq!(sr.output, 22050);
}

#[test]
fn test_soon_two_phase() {
    let mut slot: Soon<u32> = Soon::empty();
    slot.replace(11);
    assert_eq!(*slot.get(), 11);
}

#[test]
fn test_buf_writer_accumulates() {
    let mut w = BufWriter::new(());
    assert_eq!(w.write(&vec![1, 2, 3]), 3);
    assert_eq!(w.write(&vec![4]), 1);
    assert_eq!(w.drain(), vec![1, 2, 3, 4]);
    assert_eq!(w.drain(), Vec::<u8>::new());
}
