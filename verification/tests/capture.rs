use rust_wintun::capture::{
    inspect_frame, step, Acquisition, Application, CaptureAction, CaptureEvent, CaptureState,
    PREVIEW_LIMIT, RETRY_DELAY_MILLIS, SESSION_CAPACITY, TCP_COPY_LIMIT, UDP_COPY_LIMIT,
};
use rust_wintun::command::Command;
use rust_wintun::frame::TransportSummary;
use rust_wintun::guard::NetworkGuard;
use rust_wintun::sniff::{SniffReport, TextHeader};

fn capture_frame(protocol: u8, source: u16, destination: u16, payload: &[u8]) -> Vec<u8> {
    let transport_len = if protocol == 6 { 20 } else { 8 };
    let total = 20 + transport_len + payload.len();
    let mut frame = vec![
        0x45,
        0,
        (total >> 8) as u8,
        total as u8,
        0,
        0,
        0x40,
        0,
        64,
        protocol,
        0,
        0,
        10,
        0,
        0,
        1,
        10,
        0,
        0,
        2,
        (source >> 8) as u8,
        source as u8,
        (destination >> 8) as u8,
        destination as u8,
    ];
    if protocol == 6 {
        frame.extend_from_slice(&[0, 0, 0, 1, 0, 0, 0, 2, 0x50, 0x18, 0xff, 0xff, 0, 0, 0, 0]);
    } else {
        let length = 8 + payload.len();
        frame.extend_from_slice(&[(length >> 8) as u8, length as u8, 0, 0]);
    }
    frame.extend_from_slice(payload);
    frame
}

#[test]
fn http_request_is_surfaced() {
    let frame = capture_frame(6, 51000, 80, b"GET / HTTP/1.1\r\nHost: x\r\n\r\n");
    let summary = inspect_frame(&frame);
    assert!(matches!(summary.transport, Some(TransportSummary::Tcp(_))));
    let payload = summary.payload.expect("payload");
    assert_eq!(payload.copy, b"GET / HTTP/1.1\r\nHost: x\r\n\r\n".to_vec());
    assert_eq!(payload.preview, payload.copy);
    assert_eq!(payload.preview_text.as_deref(), Some("GET / HTTP/1.1\r\nHost: x\r\n\r\n"));
    assert_eq!(
        payload.application,
        Some(Application::Http(SniffReport::Request {
            method: Some("GET".to_string()),
            path: Some("/".to_string()),
            version: Some(1),
            headers: vec![TextHeader { name: "Host".to_string(), value: "x".to_string() }],
        }))
    );
}

#[test]
fn tcp_on_other_ports_is_not_sniffed() {
    let frame = capture_frame(6, 51000, 22, b"SSH-2.0");
    let payload = inspect_frame(&frame).payload.expect("payload");
    assert_eq!(payload.application, None);
    assert_eq!(payload.preview_text.as_deref(), Some("SSH-2.0"));
}

#[test]
fn dns_is_told_by_its_port() {
    let frame = capture_frame(17, 53, 40000, &[0xab, 0xcd, 1, 0]);
    let payload = inspect_frame(&frame).payload.expect("payload");
    assert_eq!(payload.application, Some(Application::Dns { payload_len: 4 }));
    assert_eq!(payload.preview, vec![0xab, 0xcd, 1, 0]);
    assert_eq!(payload.preview_text, None);
    let other = capture_frame(17, 5000, 40000, &[1]);
    assert_eq!(inspect_frame(&other).payload.expect("payload").application, None);
}

#[test]
fn udp_on_an_http_port_is_not_sniffed() {
    let frame = capture_frame(17, 80, 40000, b"GET / HTTP/1.1\r\n\r\n");
    assert_eq!(inspect_frame(&frame).payload.expect("payload").application, None);
}

#[test]
fn empty_payload_is_not_summarised() {
    let frame = capture_frame(6, 51000, 80, b"");
    let summary = inspect_frame(&frame);
    assert!(summary.transport.is_some());
    assert_eq!(summary.payload, None);
}

#[test]
fn rejected_frame_has_an_empty_summary() {
    let summary = inspect_frame(&[0x45, 0, 0]);
    assert_eq!(summary.ip, None);
    assert_eq!(summary.transport, None);
    assert_eq!(summary.payload, None);
}

#[test]
fn copies_are_bounded() {
    let big = vec![b'a'; 10000];
    let tcp = inspect_frame(&capture_frame(6, 1, 2, &big)).payload.expect("payload");
    assert_eq!(tcp.copy.len(), TCP_COPY_LIMIT);
    assert_eq!(tcp.preview.len(), PREVIEW_LIMIT);
    assert_eq!(tcp.preview_text.as_deref(), Some("a".repeat(128).as_str()));
    let udp = inspect_frame(&capture_frame(17, 53, 2, &big)).payload.expect("payload");
    assert_eq!(udp.copy.len(), UDP_COPY_LIMIT);
    assert_eq!(udp.application, Some(Application::Dns { payload_len: 2048 }));
    assert_eq!(TCP_COPY_LIMIT, 4096);
    assert_eq!(UDP_COPY_LIMIT, 2048);
    assert_eq!(PREVIEW_LIMIT, 128);
}

#[test]
fn session_is_opened_step_by_step() {
    let idle = CaptureState::Idle(Acquisition::NotStarted);
    assert_eq!(
        step(idle, CaptureEvent::Start),
        (CaptureState::Idle(Acquisition::Opening), CaptureAction::OpenAdapter)
    );
    assert_eq!(
        step(CaptureState::Idle(Acquisition::Opening), CaptureEvent::AdapterOpened),
        (
            CaptureState::Idle(Acquisition::Starting),
            CaptureAction::StartSession { capacity: 0x200000 }
        )
    );
    assert_eq!(SESSION_CAPACITY, 0x200000);
    assert_eq!(
        step(CaptureState::Idle(Acquisition::Starting), CaptureEvent::SessionStarted),
        (CaptureState::Capturing, CaptureAction::Receive)
    );
    assert_eq!(
        step(CaptureState::Idle(Acquisition::Starting), CaptureEvent::SessionUnavailable),
        (CaptureState::Stopping, CaptureAction::Fault)
    );
    assert_eq!(step(idle, CaptureEvent::SessionStarted), (idle, CaptureAction::Nothing));
    assert_eq!(step(idle, CaptureEvent::Frame(&[1, 2])), (idle, CaptureAction::Nothing));
}

#[test]
fn missing_adapter_is_created_and_restore_still_completes() {
    let (state, action) = step(CaptureState::Idle(Acquisition::Opening), CaptureEvent::AdapterNotFound);
    assert_eq!(state, CaptureState::Idle(Acquisition::Creating));
    assert_eq!(action, CaptureAction::CreateAdapter);
    let (state, action) = step(state, CaptureEvent::AdapterCreated);
    assert_eq!(state, CaptureState::Idle(Acquisition::Starting));
    assert_eq!(action, CaptureAction::StartSession { capacity: SESSION_CAPACITY });
    let (state, _) = step(state, CaptureEvent::SessionStarted);
    assert_eq!(state, CaptureState::Capturing);

    let mut guard = NetworkGuard::new();
    guard.begin("Ethernet");
    let plan = guard.restore();
    assert_eq!(plan.len(), 4);
    assert_eq!(plan[0], Command::delete_default_routes());
    assert_eq!(plan[3], Command::renew_leases());
    assert!(guard.is_restored());
}

#[test]
fn adapter_that_cannot_be_created_is_a_fault() {
    assert_eq!(
        step(CaptureState::Idle(Acquisition::Creating), CaptureEvent::AdapterUnavailable),
        (CaptureState::Stopping, CaptureAction::Fault)
    );
}

#[test]
fn failed_receive_is_retried_after_a_rest() {
    assert_eq!(
        step(CaptureState::Capturing, CaptureEvent::ReceiveFailed),
        (CaptureState::Capturing, CaptureAction::Retry { delay_millis: 200 })
    );
    assert_eq!(RETRY_DELAY_MILLIS, 200);
}

#[test]
fn received_frame_is_reported() {
    let frame = capture_frame(17, 53, 40000, &[7, 7]);
    let (state, action) = step(CaptureState::Capturing, CaptureEvent::Frame(&frame));
    assert_eq!(state, CaptureState::Capturing);
    assert_eq!(action, CaptureAction::Report(inspect_frame(&frame)));
    let (state, action) = step(CaptureState::Capturing, CaptureEvent::Frame(&[]));
    assert_eq!(state, CaptureState::Capturing);
    assert_eq!(action, CaptureAction::Report(inspect_frame(&[])));
}

#[test]
fn only_the_signal_ends_the_capture() {
    let events = [
        CaptureEvent::Start,
        CaptureEvent::AdapterOpened,
        CaptureEvent::AdapterNotFound,
        CaptureEvent::AdapterCreated,
        CaptureEvent::AdapterUnavailable,
        CaptureEvent::SessionStarted,
        CaptureEvent::SessionUnavailable,
        CaptureEvent::Frame(&[0x45]),
        CaptureEvent::ReceiveFailed,
        CaptureEvent::RestorationDone,
    ];
    for event in events {
        assert_eq!(step(CaptureState::Capturing, event).0, CaptureState::Capturing);
    }
    assert_eq!(
        step(CaptureState::Capturing, CaptureEvent::ShutdownRequested),
        (CaptureState::Stopping, CaptureAction::Nothing)
    );
    assert_eq!(
        step(CaptureState::Idle(Acquisition::Opening), CaptureEvent::ShutdownRequested),
        (CaptureState::Stopping, CaptureAction::Nothing)
    );
}

#[test]
fn stopping_ends_in_stopped() {
    assert_eq!(
        step(CaptureState::Stopping, CaptureEvent::Frame(&[1])),
        (CaptureState::Stopping, CaptureAction::Nothing)
    );
    assert_eq!(
        step(CaptureState::Stopping, CaptureEvent::ShutdownRequested),
        (CaptureState::Stopping, CaptureAction::Nothing)
    );
    assert_eq!(
        step(CaptureState::Stopping, CaptureEvent::RestorationDone),
        (CaptureState::Stopped, CaptureAction::Exit)
    );
    assert_eq!(
        step(CaptureState::Stopped, CaptureEvent::Start),
        (CaptureState::Stopped, CaptureAction::Nothing)
    );
    assert_eq!(
        step(CaptureState::Stopped, CaptureEvent::RestorationDone),
        (CaptureState::Stopped, CaptureAction::Nothing)
    );
}
