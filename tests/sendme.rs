use tor_core::error::Error;
use tor_core::sendme::{
    msg_counts_towards_windows, CircParams, CircRecvWindow, CircSendWindow, RelayCmd, SendWindow,
    StreamParams, StreamRecvWindow, StreamSendWindow, WindowParams,
};

#[test]
fn params_values() {
    assert_eq!(CircParams::maximum(), 1000);
    assert_eq!(CircParams::increment(), 100);
    assert_eq!(StreamParams::maximum(), 500);
    assert_eq!(StreamParams::increment(), 50);
}

#[test]
fn recv_window_stream_sendme_due_on_fiftieth() {
    let mut w = StreamRecvWindow::new(500);
    for k in 1..=50 {
        let r = w.take();
        if k == 50 {
            assert_eq!(r, Some(true));
        } else {
            assert_eq!(r, Some(false));
        }
    }
    assert_eq!(w.window(), 450);
}

#[test]
fn recv_window_overrun_on_501st() {
    let mut w = StreamRecvWindow::new(500);
    for _ in 0..500 {
        assert!(w.take().is_some());
    }
    assert_eq!(w.take(), None);
    assert_eq!(w.window(), 0);
}

#[test]
fn recv_window_decrement_and_put() {
    let mut w = CircRecvWindow::new(1000);
    assert!(w.decrement_n(999).is_ok());
    assert_eq!(w.window(), 1);
    assert_eq!(w.decrement_n(2), Err(Error::CircProto("Received too many cells on a stream")));
    assert_eq!(w.window(), 1);
    w.put();
    assert_eq!(w.window(), 101);
    let c = w.clone();
    assert_eq!(c.window(), 101);
}

fn filled_circ_window() -> CircSendWindow {
    let mut w: CircSendWindow = SendWindow::new(1000);
    for k in 1..=1000u32 {
        let t = [(k / 100) as u8; 20];
        assert_eq!(w.take(&t), Some((1000 - k) as u16));
    }
    w
}

#[test]
fn send_window_records_tags_in_order() {
    let w = filled_circ_window();
    let expected: Vec<[u8; 20]> = (1..=10u8).map(|i| [i; 20]).collect();
    assert_eq!(w.tags(), &expected);
    assert_eq!(w.window(), 0);
}

#[test]
fn send_window_take_on_empty_parks() {
    let mut w = filled_circ_window();
    assert!(!w.has_parked());
    assert_eq!(w.take(&[0; 20]), None);
    assert!(w.has_parked());
    assert_eq!(w.tags().len(), 10);
}

#[test]
fn send_window_put_right_tag() {
    let mut w = filled_circ_window();
    assert_eq!(w.take(&[0; 20]), None);
    assert_eq!(w.put(Some([1; 20])), Some(100));
    assert_eq!(w.tags()[0], [2; 20]);
    assert_eq!(w.tags().len(), 9);
    assert!(!w.has_parked());
    assert_eq!(w.take(&[0; 20]), Some(99));
}

#[test]
fn send_window_put_wrong_tag() {
    let mut w = filled_circ_window();
    assert_eq!(w.take(&[0; 20]), None);
    assert_eq!(w.put(Some([9; 20])), None);
    let expected: Vec<[u8; 20]> = (1..=10u8).map(|i| [i; 20]).collect();
    assert_eq!(w.tags(), &expected);
    assert_eq!(w.window(), 0);
    assert!(w.has_parked());
}

#[test]
fn send_window_put_without_tag() {
    let mut w = filled_circ_window();
    assert_eq!(w.put(None), Some(100));
    assert_eq!(w.tags()[0], [2; 20]);
}

#[test]
fn send_window_unsolicited_sendme() {
    let mut w: StreamSendWindow = SendWindow::new(500);
    assert_eq!(w.put(None), None);
    assert_eq!(w.put(Some(())), None);
    assert_eq!(w.window(), 500);
}

#[test]
fn send_window_stream_cycle() {
    let mut w: StreamSendWindow = SendWindow::new(500);
    for _ in 0..500 {
        assert!(w.take(&()).is_some());
    }
    assert_eq!(w.tags().len(), 10);
    assert_eq!(w.take(&()), None);
    assert_eq!(w.put(Some(())), Some(50));
    assert_eq!(w.tags().len(), 9);
}

#[test]
fn send_window_overflow_refused() {
    let mut w: CircSendWindow = SendWindow::new(65535);
    for _ in 0..35 {
        w.take(&[3; 20]);
    }
    assert_eq!(w.window(), 65500);
    assert_eq!(w.tags().len(), 1);
    assert_eq!(w.put(None), None);
    assert_eq!(w.tags().len(), 1);
}

#[test]
fn only_data_counts() {
    assert!(msg_counts_towards_windows(RelayCmd::Data));
    assert!(!msg_counts_towards_windows(RelayCmd::Sendme));
    assert!(!msg_counts_towards_windows(RelayCmd::Extend));
    assert!(!msg_counts_towards_windows(RelayCmd::Extended));
    assert!(!msg_counts_towards_windows(RelayCmd::Other));
}

#[test]
fn send_window_never_exceeds_maximum() {
    let mut w: CircSendWindow = SendWindow::new(1000);
    for _ in 0..150 {
        assert!(w.take(&[4; 20]).is_some());
    }
    assert_eq!(w.tags().len(), 1);
    assert_eq!(w.put(Some([4; 20])), Some(950));
    assert_eq!(w.put(None), None);
    assert_eq!(w.window(), 950);
}
