use ansi_machine::message::{Msg, WindowSize};
use ansi_machine::notifier::{input_message, resize_message, Notifier, Notify, OnResize};
use ansi_machine::session::{Command, Session, Wake};
use mio_extras::channel;

fn size(r: u16, c: u16) -> WindowSize {
    WindowSize { num_lines: r, num_cols: c, cell_width: 9, cell_height: 18 }
}

#[test]
fn empty_input_is_never_sent() {
    let (tx, rx) = channel::channel();
    let n = Notifier::new(tx);
    assert!(!n.notify(vec![]));
    assert!(rx.try_recv().is_err());
    assert!(input_message(vec![]).is_none());
}

#[test]
fn input_and_resize_are_sent_in_order() {
    let (tx, rx) = channel::channel();
    let mut n = Notifier::new(tx);
    assert!(n.notify(vec![0x6c, 0x73]));
    n.on_resize(size(30, 100));
    match rx.try_recv() {
        Ok(Msg::Input(b)) => assert_eq!(b, vec![0x6c, 0x73]),
        other => panic!("unexpected {other:?}"),
    }
    match rx.try_recv() {
        Ok(Msg::Resize(w)) => assert_eq!(w, size(30, 100)),
        other => panic!("unexpected {other:?}"),
    }
    assert!(rx.try_recv().is_err());
}

#[test]
fn shutdown_ends_the_loop_while_output_is_pending() {
    let mut s = Session::new(size(24, 80));
    assert_eq!(s.step(Wake::Control(Msg::Input(vec![1, 2, 3]))), Command::AwaitWritable);
    assert_eq!(s.step(Wake::Control(Msg::Shutdown)), Command::Stop);
    assert!(!s.running);
    assert_eq!(s.step(Wake::PtyRead(vec![0x41])), Command::Idle);
}

#[test]
fn closed_channel_is_shutdown() {
    let mut s = Session::new(size(24, 80));
    assert_eq!(s.step(Wake::ControlClosed), Command::Stop);
    assert!(!s.running);
}

#[test]
fn resize_sets_rows_and_columns() {
    let mut s = Session::new(size(24, 80));
    assert_eq!(s.step(Wake::Control(Msg::Resize(size(50, 132)))), Command::Resize(size(50, 132)));
    assert_eq!(s.size.num_lines, 50);
    assert_eq!(s.size.num_cols, 132);
}

#[test]
fn reads_are_parsed_and_eof_exits() {
    let mut s = Session::new(size(24, 80));
    assert_eq!(s.step(Wake::PtyRead(vec![0x61, 0x62])), Command::Parse(vec![0x61, 0x62]));
    assert!(s.running);
    assert_eq!(s.step(Wake::PtyRead(vec![])), Command::Exit);
    assert!(!s.running);
}

#[test]
fn failure_exits() {
    let mut s = Session::new(size(24, 80));
    assert_eq!(s.step(Wake::PtyFailed), Command::Exit);
    assert!(!s.running);
}

#[test]
fn partial_writes_keep_the_rest_in_order() {
    let mut s = Session::new(size(24, 80));
    s.step(Wake::Control(Msg::Input(vec![1, 2, 3])));
    s.step(Wake::Control(Msg::Input(vec![4])));
    assert_eq!(s.step(Wake::PtyWrote(2)), Command::AwaitWritable);
    assert_eq!(s.pending, vec![3, 4]);
    assert_eq!(s.step(Wake::PtyWrote(2)), Command::Idle);
    assert!(s.pending.is_empty());
}

#[test]
fn resize_message_carries_the_geometry() {
    match resize_message(size(7, 9)) {
        Msg::Resize(w) => assert_eq!(w, size(7, 9)),
        other => panic!("unexpected {other:?}"),
    }
}

#[test]
fn on_resize_sends_one_resize_per_call() {
    let (tx, rx) = channel::channel();
    let mut n = Notifier::new(tx);
    n.on_resize(size(1, 2));
    n.on_resize(size(3, 4));
    for expected in [size(1, 2), size(3, 4)] {
        match rx.try_recv() {
            Ok(Msg::Resize(w)) => assert_eq!(w, expected),
            other => panic!("unexpected {other:?}"),
        }
    }
    assert!(rx.try_recv().is_err());
}
