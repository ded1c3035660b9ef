use guvnuh::framing::{FrameAssembler, HelloWatcher, FRAME_CAPACITY};

#[test]
fn frame_round_trip() {
    let mut a = FrameAssembler::new();
    let body = [0x03u8, 0x11, 0x22, 0x02, 0x33];
    for b in body {
        assert_eq!(a.push(b), None);
    }
    assert_eq!(a.push(0x00), Some(body.to_vec()));
    assert_eq!(a.len(), 0);
}

#[test]
fn empty_frames_are_skipped() {
    let mut a = FrameAssembler::new();
    assert_eq!(a.push(0), None);
    assert_eq!(a.push(0), None);
    a.push(7);
    assert_eq!(a.push(0), Some(vec![7]));
}

#[test]
fn back_to_back_frames() {
    let mut a = FrameAssembler::new();
    let mut out = Vec::new();
    for b in [1u8, 2, 0, 3, 0, 4, 5, 6, 0] {
        if let Some(f) = a.push(b) {
            out.push(f);
        }
    }
    assert_eq!(out, vec![vec![1, 2], vec![3], vec![4, 5, 6]]);
}

#[test]
fn overflow_discards_frame() {
    let mut a = FrameAssembler::new();
    for _ in 0..FRAME_CAPACITY {
        assert_eq!(a.push(9), None);
    }
    assert_eq!(a.len(), FRAME_CAPACITY);
    assert_eq!(a.push(9), None); // one too many: frame dropped, byte dropped
    assert_eq!(a.len(), 0);
    a.push(1);
    assert_eq!(a.push(0), Some(vec![1]));
}

#[test]
fn full_capacity_frame_is_kept() {
    let mut a = FrameAssembler::new();
    for i in 0..FRAME_CAPACITY {
        a.push((i % 250 + 1) as u8);
    }
    let f = a.push(0).unwrap();
    assert_eq!(f.len(), FRAME_CAPACITY);
}

#[test]
fn clear_drops_pending() {
    let mut a = FrameAssembler::new();
    a.push(1);
    a.clear();
    assert_eq!(a.push(0), None);
}

#[test]
fn hello_recognized_after_noise() {
    let mut w = HelloWatcher::new();
    for b in b"xxHELxHEL" {
        assert!(!w.push(*b));
    }
    let mut seen = false;
    for b in b"HELLO" {
        seen = w.push(*b);
    }
    assert!(seen);
    assert!(!w.push(b'O'));
}

#[test]
fn overlong_run_keeps_the_bytes_after_its_overflow() {
    let mut a = FrameAssembler::new();
    // 129 bytes fill and overflow the buffer; the next three survive as the frame.
    for _ in 0..=FRAME_CAPACITY {
        assert_eq!(a.push(7), None);
    }
    assert_eq!(a.len(), 0);
    for b in [1u8, 2, 3] {
        assert_eq!(a.push(b), None);
    }
    assert_eq!(a.push(0), Some(vec![1, 2, 3]));
    // a run of exactly 129 bytes leaves nothing to send
    for _ in 0..=FRAME_CAPACITY {
        a.push(9);
    }
    assert_eq!(a.push(0), None);
}
