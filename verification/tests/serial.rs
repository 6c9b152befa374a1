use propolis_server::serial::{SerialAction, SerialEvent, SerialSession, WsInput};

#[test]
fn output_goes_read_then_send() {
    let mut s = SerialSession::new();
    assert_eq!(s.pending_output(), None);
    assert_eq!(s.on_event(SerialEvent::UartRead(Some(10))), SerialAction::Continue);
    assert_eq!(s.pending_output(), Some(10));
    assert_eq!(s.on_event(SerialEvent::WsSent(true)), SerialAction::Continue);
    assert_eq!(s.pending_output(), None);
}

#[test]
fn input_is_written_until_consumed() {
    let mut s = SerialSession::new();
    assert!(s.pending_input().is_none());
    assert_eq!(s.on_event(SerialEvent::WsReceived(WsInput::Binary(vec![1, 2, 3, 4]))), SerialAction::Continue);
    assert_eq!(s.pending_input().unwrap(), &[1, 2, 3, 4]);
    assert_eq!(s.on_event(SerialEvent::UartWritten(Some(3))), SerialAction::Continue);
    assert_eq!(s.pending_input().unwrap(), &[4]);
    assert_eq!(s.on_event(SerialEvent::UartWritten(Some(1))), SerialAction::Continue);
    assert!(s.pending_input().is_none());
}

#[test]
fn session_ends() {
    let mut s = SerialSession::new();
    assert_eq!(s.on_event(SerialEvent::Detached), SerialAction::SendCloseAndStop);
    assert_eq!(s.on_event(SerialEvent::UartRead(Some(0))), SerialAction::Stop);
    assert_eq!(s.on_event(SerialEvent::UartRead(None)), SerialAction::Stop);
    assert_eq!(s.on_event(SerialEvent::WsReceived(WsInput::Close)), SerialAction::Stop);
    assert_eq!(s.on_event(SerialEvent::WsReceived(WsInput::End)), SerialAction::Stop);
    assert_eq!(s.on_event(SerialEvent::WsReceived(WsInput::Other)), SerialAction::Continue);
    s.on_event(SerialEvent::UartRead(Some(5)));
    assert_eq!(s.on_event(SerialEvent::WsSent(false)), SerialAction::Fail);
    s.on_event(SerialEvent::WsReceived(WsInput::Binary(vec![1])));
    assert_eq!(s.on_event(SerialEvent::UartWritten(None)), SerialAction::Stop);
    assert_eq!(s.on_event(SerialEvent::UartWritten(Some(0))), SerialAction::Stop);
}
