use xcoffee::connect::{negotiate, ConnectError};
use xcoffee::driver::{step, Action, DriverState, Event, Input, Notice};

const MJPEG: &[u8] = b"multipart/x-mixed-replace; boundary=frame";

#[test]
fn negotiate_boundary_token() {
    match negotiate(200, Some(MJPEG)) {
        Ok(token) => assert_eq!(token, b"--frame".to_vec()),
        Err(_) => panic!("boundary expected"),
    }
}

#[test]
fn negotiate_without_boundary_attribute() {
    assert!(matches!(
        negotiate(200, Some(b"multipart/x-mixed-replace")),
        Err(ConnectError::NoBoundary)
    ));
}

#[test]
fn negotiate_without_content_type() {
    assert!(matches!(negotiate(200, None), Err(ConnectError::NoContentType)));
}

#[test]
fn negotiate_empty_boundary() {
    assert!(matches!(
        negotiate(200, Some(b"multipart/x-mixed-replace; boundary=  ")),
        Err(ConnectError::EmptyBoundary)
    ));
}

#[test]
fn negotiate_bad_status() {
    assert!(matches!(negotiate(500, Some(MJPEG)), Err(ConnectError::BadStatus(500))));
    assert!(matches!(negotiate(199, Some(MJPEG)), Err(ConnectError::BadStatus(199))));
}

#[test]
fn negotiate_trims_value_and_stops_at_next_equals() {
    match negotiate(204, Some(b"multipart/x-mixed-replace;charset=x;  boundary= ab c \t;q=1")) {
        Ok(token) => assert_eq!(token, b"--ab c".to_vec()),
        Err(_) => panic!("boundary expected"),
    }
    match negotiate(200, Some(b"multipart/x-mixed-replace; boundary=a=b")) {
        Ok(token) => assert_eq!(token, b"--a".to_vec()),
        Err(_) => panic!("boundary expected"),
    }
}

fn opened(status: u16, content_type: &[u8]) -> Input {
    Input::Opened { status, content_type: Some(content_type.to_vec()) }
}

#[test]
fn bad_status_backs_off() {
    let (state, action) = step(DriverState::new(), opened(500, MJPEG));
    assert!(matches!(state, DriverState::Sleeping { delay_secs: 5 }));
    assert!(matches!(
        action,
        Action::Emit(Event::Status(Notice::ConnectFailed(ConnectError::BadStatus(500))))
    ));
}

#[test]
fn transport_failure_backs_off() {
    let (state, action) = step(DriverState::Connecting, Input::OpenFailed("refused".to_string()));
    assert!(matches!(state, DriverState::Sleeping { delay_secs: 5 }));
    match action {
        Action::Emit(Event::Status(Notice::ConnectFailed(ConnectError::Transport(t)))) => {
            assert_eq!(t, "refused")
        }
        _ => panic!("transport error expected"),
    }
}

#[test]
fn connecting_asks_to_open() {
    let (state, action) = step(DriverState::Connecting, Input::Start);
    assert!(matches!(state, DriverState::Connecting));
    assert!(matches!(action, Action::Open));
}

#[test]
fn sleeping_waits_then_reconnects() {
    let (state, action) = step(DriverState::Sleeping { delay_secs: 5 }, Input::Start);
    assert!(matches!(action, Action::Sleep(5)));
    let (state, action) = step(state, Input::Woke);
    assert!(matches!(state, DriverState::Connecting));
    assert!(matches!(action, Action::Emit(Event::Status(Notice::Reconnecting))));
}

fn streaming(boundary: &[u8]) -> DriverState {
    DriverState::Streaming { buffer: Vec::new(), boundary: boundary.to_vec(), is_first_frame: false }
}

#[test]
fn stream_error_backs_off() {
    let (state, action) = step(streaming(b"--X"), Input::ReadFailed("reset".to_string()));
    assert!(matches!(state, DriverState::Sleeping { delay_secs: 5 }));
    assert!(matches!(action, Action::Emit(Event::Status(Notice::StreamFailed(_)))));
}

#[test]
fn stream_end_backs_off() {
    let (state, action) = step(streaming(b"--X"), Input::Ended);
    assert!(matches!(state, DriverState::Sleeping { delay_secs: 5 }));
    assert!(matches!(action, Action::Emit(Event::Status(Notice::StreamEnded))));
}

#[test]
fn end_to_end_chunked_stream() {
    let (state, action) =
        step(DriverState::new(), opened(200, b"multipart/x-mixed-replace; boundary=X"));
    assert!(matches!(action, Action::Emit(Event::Status(Notice::Connected))));
    match &state {
        DriverState::Streaming { buffer, boundary, is_first_frame } => {
            assert!(buffer.is_empty());
            assert_eq!(boundary, &b"--X".to_vec());
            assert!(*is_first_frame);
        }
        _ => panic!("streaming expected"),
    }
    let (state, action) = step(state, Input::Start);
    assert!(matches!(action, Action::Read));
    let (state, action) = step(state, Input::Chunk(b"--X\r\n".to_vec()));
    assert!(matches!(action, Action::Read));
    let (state, action) =
        step(state, Input::Chunk(b"Content-Type: a\r\n\r\nDATA1--X\r\nCont".to_vec()));
    match action {
        Action::Emit(Event::FrameLoaded(frame)) => assert_eq!(frame, b"DATA1".to_vec()),
        _ => panic!("frame expected"),
    }
    let (state, action) = step(state, Input::Start);
    assert!(matches!(action, Action::Read));
    let (state, action) = step(state, Input::Chunk(b"ent-Type: a\r\n\r\nDATA2".to_vec()));
    assert!(matches!(action, Action::Read));
    match &state {
        DriverState::Streaming { buffer, is_first_frame, .. } => {
            assert_eq!(buffer, &b"\r\nContent-Type: a\r\n\r\nDATA2".to_vec());
            assert!(!*is_first_frame);
        }
        _ => panic!("streaming expected"),
    }
    let (_, action) = step(state, Input::Chunk(b"\r\n--X".to_vec()));
    match action {
        Action::Emit(Event::FrameLoaded(frame)) => assert_eq!(frame, b"DATA2".to_vec()),
        _ => panic!("frame expected"),
    }
}
