use screenshare::protocol::{read_frame, MAX_FRAME_SIZE};
use screenshare::terminal::{terminal_frame, TerminalOutput, TerminalShareHandle};

#[test]
fn input_is_taken_in_order() {
    let mut h = TerminalShareHandle::new();
    h.write_input(b"ls");
    h.write_input(b"\r");
    assert_eq!(h.take_input(), b"ls\r".to_vec());
    assert_eq!(h.take_input(), Vec::<u8>::new());
}

#[test]
fn output_chunks() {
    let mut out = TerminalOutput::new();
    let v0 = out.add_viewer();
    assert!(out.take_chunk(v0).is_none());
    out.remove_viewer(v0);
    out.push_output(b"before anyone ");
    let v = out.add_viewer();
    out.push_output(b"hello ");
    out.push_output(b"world");
    assert_eq!(out.take_chunk(v), Some(b"before anyone hello world".to_vec()));
    assert!(out.take_chunk(v).is_none());
    assert!(out.take_chunk(v + 1).is_none());
}

#[test]
fn every_viewer_gets_all_output() {
    let mut out = TerminalOutput::new();
    let a = out.add_viewer();
    out.push_output(b"ls\r\n");
    let b = out.add_viewer();
    out.push_output(b"file\r\n");
    assert_eq!(out.take_chunk(a), Some(b"ls\r\nfile\r\n".to_vec()));
    out.push_output(b"$ ");
    assert_eq!(out.take_chunk(b), Some(b"ls\r\nfile\r\n$ ".to_vec()));
    assert_eq!(out.take_chunk(a), Some(b"$ ".to_vec()));
    out.remove_viewer(a);
    out.push_output(b"x");
    assert!(out.take_chunk(a).is_none());
    assert_eq!(out.take_chunk(b), Some(b"x".to_vec()));
}

#[test]
fn terminal_frames() {
    let f = terminal_frame(b"\x1b[2J").unwrap();
    assert_eq!(f, vec![0, 0, 0, 4, 0x1b, b'[', b'2', b'J']);
    assert_eq!(read_frame(&f).unwrap().0, b"\x1b[2J".to_vec());
    assert!(terminal_frame(&vec![0u8; MAX_FRAME_SIZE as usize + 1]).is_none());
    assert!(terminal_frame(&vec![0u8; MAX_FRAME_SIZE as usize]).is_some());
}

#[test]
fn pending_output_goes_to_the_next_viewer() {
    let mut out = TerminalOutput::new();
    out.push_output(&[0x68, 0x69]);
    let v = out.add_viewer();
    let chunk = out.take_chunk(v).unwrap();
    assert_eq!(terminal_frame(&chunk).unwrap(), vec![0, 0, 0, 2, 0x68, 0x69]);
    // Taken output is no longer kept for viewers yet to connect.
    let w = out.add_viewer();
    assert!(out.take_chunk(w).is_none());
    out.push_output(b"$ ");
    assert_eq!(out.take_chunk(w), Some(b"$ ".to_vec()));
}
