use terminar_core::pty::{
    MockChild, MockMasterPty, MockPtyProvider, MockRead, PtySize, WaitStep,
};

fn read(pty: &mut MockMasterPty, max: usize) -> Vec<u8> {
    match pty.try_read(max) {
        MockRead::Data(bytes) => bytes,
        MockRead::Empty => panic!("nothing to read"),
        MockRead::Eof => panic!("end of output"),
    }
}

#[test]
fn test_mock_pty_pipe() {
    let mut pty = MockMasterPty::new();
    assert_eq!(pty.write(b"hello"), 5);
    assert_eq!(read(&mut pty, 5), b"hello".to_vec());
}

#[test]
fn test_mock_pty_resize() {
    let mut pty = MockMasterPty::new();
    let new_size = PtySize {
        rows: 50,
        cols: 120,
        pixel_width: 960,
        pixel_height: 400,
    };
    pty.resize(new_size);

    let retrieved = pty.get_size();
    assert_eq!(retrieved.rows, 50);
    assert_eq!(retrieved.cols, 120);
    assert_eq!(retrieved.pixel_width, 960);
    assert_eq!(retrieved.pixel_height, 400);
}

#[test]
fn the_default_size_is_that_of_the_outside_terminals() {
    let outside = portable_pty::PtySize::default();
    let size = PtySize::default();
    assert_eq!(size.rows, outside.rows);
    assert_eq!(size.cols, outside.cols);
    assert_eq!(size.pixel_width, outside.pixel_width);
    assert_eq!(size.pixel_height, outside.pixel_height);
    assert_eq!(MockMasterPty::default().get_size(), size);
    assert_eq!(MockPtyProvider.create_pty(10, 10).get_size(), size);
}

#[test]
fn portions_do_not_change_what_is_read() {
    let mut pty = MockMasterPty::new();
    pty.write(b"abc");
    assert_eq!(read(&mut pty, 2), b"ab".to_vec());
    pty.write(b"def");
    assert_eq!(read(&mut pty, 3), b"cde".to_vec());
    assert_eq!(read(&mut pty, 100), b"f".to_vec());
    assert!(matches!(pty.try_read(1), MockRead::Empty));
}

#[test]
fn the_output_ends_with_the_last_writer() {
    let mut pty = MockMasterPty::new();
    pty.add_sender();
    pty.write(b"x");
    pty.drop_sender();
    assert!(matches!(pty.try_read(0), MockRead::Eof));
    pty.drop_sender();
    assert_eq!(read(&mut pty, 8), b"x".to_vec());
    assert!(matches!(pty.try_read(8), MockRead::Eof));
}

#[test]
fn a_stand_in_child_lives_until_it_is_killed() {
    let mut child = MockPtyProvider.spawn_command();
    assert_eq!(child.process_id(), Some(12345));
    assert!(!child.has_exited());
    assert_eq!(child.wait_step(false), WaitStep::KeepWaiting);
    assert_eq!(child.wait_step(true), WaitStep::TimedOut);
    child.kill();
    assert!(child.has_exited());
    assert_eq!(child.wait_step(true), WaitStep::Done);
    assert_eq!(child.wait_step(false), WaitStep::Done);
    assert!(!MockChild::new().has_exited());
}
