use thrust::reactor::{FramedTransport, WriteBuffer};

#[test]
fn a_frame_in_one_piece() {
    let mut t = FramedTransport::new();
    let frames = t.read(&[0, 0, 0, 3, 0x41, 0x42, 0x43]);
    assert_eq!(frames, vec![vec![0x41, 0x42, 0x43]]);
    assert!(t.read(&[]).is_empty());
}

#[test]
fn a_frame_in_every_splitting() {
    let wire = [0u8, 0, 0, 3, 0x41, 0x42, 0x43];
    for a in 0..=wire.len() {
        for b in a..=wire.len() {
            let mut t = FramedTransport::new();
            let mut frames = t.read(&wire[..a]);
            frames.extend(t.read(&wire[a..b]));
            frames.extend(t.read(&wire[b..]));
            assert_eq!(frames, vec![vec![0x41, 0x42, 0x43]]);
            assert!(t.read(&[]).is_empty());
        }
    }
}

#[test]
fn a_frame_byte_by_byte() {
    let mut t = FramedTransport::new();
    let wire = [0u8, 0, 0, 2, 7, 8];
    let mut frames = Vec::new();
    for (i, b) in wire.iter().enumerate() {
        let got = t.read(&[*b]);
        if i + 1 < wire.len() {
            assert!(got.is_empty());
        }
        frames.extend(got);
    }
    assert_eq!(frames, vec![vec![7, 8]]);
}

#[test]
fn an_empty_frame_is_a_frame() {
    let mut t = FramedTransport::new();
    assert_eq!(t.read(&[0, 0, 0, 0]), vec![Vec::<u8>::new()]);
    assert_eq!(
        t.read(&[0, 0, 0, 0, 0, 0, 0, 1, 5, 0, 0, 0, 0]),
        vec![vec![], vec![5], vec![]]
    );
}

#[test]
fn several_frames_in_one_chunk_and_a_rest() {
    let mut t = FramedTransport::new();
    let frames = t.read(&[0, 0, 0, 1, 1, 0, 0, 0, 2, 2, 3, 0, 0]);
    assert_eq!(frames, vec![vec![1], vec![2, 3]]);
    let frames = t.read(&[1, 0]);
    assert!(frames.is_empty());
    let frames = t.read(&[9; 256]);
    assert_eq!(frames, vec![vec![9; 256]]);
}

#[test]
fn clear_drops_a_frame_that_is_not_complete() {
    let mut t = FramedTransport::new();
    assert!(t.read(&[0, 0, 0, 0x10, 1, 2, 3, 4]).is_empty());
    t.clear();
    assert_eq!(t.read(&[0, 0, 0, 1, 5]), vec![vec![5]]);
}

#[test]
fn the_length_is_a_big_endian_word() {
    let mut t = FramedTransport::new();
    let mut wire = vec![0, 0, 1, 2];
    wire.extend(vec![3u8; 258]);
    assert_eq!(t.read(&wire), vec![vec![3u8; 258]]);
}

#[test]
fn write_buffer_holds_whole_frames_in_order() {
    let mut w = WriteBuffer::new();
    assert!(!w.has_remaining());
    assert!(w.enqueue(&[0x41, 0x42, 0x43]));
    assert!(w.has_remaining());
    assert_eq!(w.chunk(), &[0, 0, 0, 3, 0x41, 0x42, 0x43]);
    assert!(w.enqueue(&[]));
    assert!(w.enqueue(&[1]));
    assert_eq!(
        w.chunk(),
        &[0, 0, 0, 3, 0x41, 0x42, 0x43, 0, 0, 0, 0, 0, 0, 0, 1, 1]
    );
}

#[test]
fn write_buffer_never_gives_a_byte_twice() {
    let mut w = WriteBuffer::new();
    w.enqueue(&[1, 2, 3]);
    assert!(w.advance(5));
    assert_eq!(w.chunk(), &[2, 3]);
    assert!(!w.advance(3));
    assert_eq!(w.chunk(), &[2, 3]);
    assert!(w.advance(0));
    w.enqueue(&[4]);
    assert_eq!(w.chunk(), &[2, 3, 0, 0, 0, 1, 4]);
    assert!(w.advance(7));
    assert!(!w.has_remaining());
    assert_eq!(w.chunk(), &[] as &[u8]);
    w.enqueue(&[5]);
    assert_eq!(w.chunk(), &[0, 0, 0, 1, 5]);
}

#[test]
fn what_is_written_is_read_back_in_order() {
    let payloads: Vec<Vec<u8>> = vec![vec![1, 2, 3], vec![], vec![4; 70], vec![5]];
    let mut w = WriteBuffer::new();
    for p in &payloads {
        assert!(w.enqueue(p));
    }
    let mut t = FramedTransport::new();
    let mut got = Vec::new();
    while w.has_remaining() {
        let n = std::cmp::min(w.chunk().len(), 3);
        got.extend(t.read(&w.chunk()[..n]));
        assert!(w.advance(n));
    }
    assert_eq!(got, payloads);
}
