use ghostline::framing::{frame, FrameBuffer};

#[test]
fn frame_prefixes_length() {
    assert_eq!(frame(&[7, 8, 9]), vec![0, 0, 0, 3, 7, 8, 9]);
    assert_eq!(frame(&[]), vec![0, 0, 0, 0]);
}

#[test]
fn frames_split_across_reads_come_back_in_order() {
    let mut stream = frame(b"first");
    stream.extend(frame(b""));
    stream.extend(frame(b"second packet"));
    let mut buf = FrameBuffer::new();
    let mut out = Vec::new();
    for chunk in stream.chunks(3) {
        buf.push(chunk);
        while let Some(p) = buf.next_frame() {
            out.push(p);
        }
    }
    assert_eq!(out, vec![b"first".to_vec(), vec![], b"second packet".to_vec()]);
    assert_eq!(buf.next_frame(), None);
}

#[test]
fn incomplete_frame_waits() {
    let mut buf = FrameBuffer::new();
    buf.push(&[0, 0]);
    assert_eq!(buf.next_frame(), None);
    buf.push(&[0, 2, 1]);
    assert_eq!(buf.next_frame(), None);
    buf.push(&[2, 0]);
    assert_eq!(buf.next_frame(), Some(vec![1, 2]));
    buf.push(&[0, 0]);
    assert_eq!(buf.next_frame(), None);
    buf.push(&[0]);
    assert_eq!(buf.next_frame(), Some(vec![]));
}
