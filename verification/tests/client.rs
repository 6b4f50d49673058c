use mitos_audio::client::error::ClientError;
use mitos_audio::client::events::ClientEvent;
use mitos_audio::client::monitor::{monitor_step, retries_after, MonitorAction, MonitorEvent, MonitorState};
use mitos_audio::client::types::ClientConfig;
use mitos_audio::client::wire::{is_level_event, next_backoff, open_reply, pcm_from_i16, WireError, WireResponse};
use mitos_audio::ipc::json::{JsonNumber, JsonValue};

fn obj(members: Vec<(&str, JsonValue)>) -> JsonValue {
    JsonValue::Object(members.into_iter().map(|(k, v)| (k.to_string(), v)).collect())
}

fn s(v: &str) -> JsonValue {
    JsonValue::String(v.to_string())
}

fn event(name: &str, data: JsonValue) -> JsonValue {
    obj(vec![("event", s(name)), ("data", data)])
}

#[test]
fn events_decode_from_wire() {
    match ClientEvent::from_wire(&event("DeviceAdded", obj(vec![("id", s("usb")), ("name", s("USB"))]))) {
        Some(ClientEvent::DeviceAdded { id, name }) => assert_eq!((id.as_str(), name.as_str()), ("usb", "USB")),
        _ => panic!(),
    }
    match ClientEvent::from_wire(&event(
        "VolumeChanged",
        obj(vec![("device", JsonValue::Null), ("volume", JsonValue::Number(JsonNumber::PosInt(60)))]),
    )) {
        Some(ClientEvent::VolumeChanged { device: None, volume: 60 }) => {}
        _ => panic!(),
    }
    // Numbers are narrowed as `as` narrows them.
    match ClientEvent::from_wire(&event(
        "VolumeChanged",
        obj(vec![("volume", JsonValue::Number(JsonNumber::PosInt(4_294_967_297)))]),
    )) {
        Some(ClientEvent::VolumeChanged { volume: 1, .. }) => {}
        _ => panic!(),
    }
    match ClientEvent::from_wire(&event(
        "MicrophoneChanged",
        obj(vec![("muted", JsonValue::Bool(true)), ("gain", JsonValue::Number(JsonNumber::NegInt(-6)))]),
    )) {
        Some(ClientEvent::MicrophoneChanged { muted: true, gain: -6 }) => {}
        _ => panic!(),
    }
    match ClientEvent::from_wire(&event("FutureThing", JsonValue::Null)) {
        Some(ClientEvent::Unknown { name }) => assert_eq!(name, "FutureThing"),
        _ => panic!(),
    }
}

#[test]
fn non_events_and_incomplete_events_are_dropped() {
    assert!(ClientEvent::from_wire(&obj(vec![("id", JsonValue::Number(JsonNumber::PosInt(1)))])).is_none());
    assert!(ClientEvent::from_wire(&obj(vec![("event", JsonValue::Bool(true))])).is_none());
    assert!(ClientEvent::from_wire(&event("DeviceRemoved", obj(vec![]))).is_none());
    assert!(ClientEvent::from_wire(&event("MuteChanged", obj(vec![("muted", s("yes"))]))).is_none());
}

#[test]
fn backoff_doubles_up_to_the_ceiling() {
    let c = ClientConfig::for_socket("/run/mitos/audio.sock".to_string());
    assert_eq!((c.retry_initial_ms, c.retry_max_ms), (250, 8000));
    assert_eq!(next_backoff(250, 8000), 500);
    assert_eq!(next_backoff(4000, 8000), 8000);
    assert_eq!(next_backoff(5000, 8000), 8000);
    assert_eq!(next_backoff(u64::MAX, u64::MAX), u64::MAX);
}

#[test]
fn responses_become_results() {
    let ok = WireResponse { id: 1, ok: true, result: Some(JsonValue::Bool(true)), error: None };
    assert!(matches!(ok.outcome(), Ok(JsonValue::Bool(true))));
    let empty = WireResponse { id: 1, ok: true, result: None, error: None };
    assert!(matches!(empty.outcome(), Ok(JsonValue::Null)));
    let err = WireResponse {
        id: 2,
        ok: false,
        result: None,
        error: Some(WireError { code: "device-not-found".into(), message: "device not found: x".into() }),
    };
    match err.outcome() {
        Err(e) => assert_eq!(e.message(), "mitos-audio error [device-not-found]: device not found: x"),
        _ => panic!(),
    }
    let bare = WireResponse { id: 3, ok: false, result: None, error: None };
    match bare.outcome() {
        Err(ClientError::Protocol(m)) => assert_eq!(m, "error response without body"),
        _ => panic!(),
    }
}

#[test]
fn open_replies() {
    let ack = obj(vec![("stream_id", s("s-3"))]);
    assert_eq!(open_reply(0x81, &ack).ok(), Some("s-3".to_string()));
    match open_reply(0x81, &obj(vec![])) {
        Err(ClientError::Protocol(m)) => assert_eq!(m, "OPEN_ACK without stream_id"),
        _ => panic!(),
    }
    match open_reply(0x82, &obj(vec![("code", s("ipc-error"))])) {
        Err(ClientError::Daemon { code, message }) => {
            assert_eq!(code, "ipc-error");
            assert_eq!(message, "unknown");
        }
        _ => panic!(),
    }
    match open_reply(0x0a, &JsonValue::Null) {
        Err(ClientError::Protocol(m)) => assert_eq!(m, "unexpected frame 0x0a"),
        _ => panic!(),
    }
    match open_reply(0xff, &JsonValue::Null) {
        Err(e) => assert_eq!(e.message(), "malformed response: unexpected frame 0xff"),
        _ => panic!(),
    }
}

#[test]
fn pcm_is_little_endian() {
    assert_eq!(pcm_from_i16(&[1, -1, 0x1234, i16::MIN]), vec![1, 0, 0xff, 0xff, 0x34, 0x12, 0x00, 0x80]);
}

#[test]
fn level_lines_are_recognised() {
    assert!(is_level_event(&event("LevelChanged", JsonValue::Null)));
    assert!(!is_level_event(&event("VolumeChanged", JsonValue::Null)));
    assert!(!is_level_event(&JsonValue::Null));
}

#[test]
fn client_error_messages() {
    assert_eq!(ClientError::Disconnected.message(), "connection closed by daemon");
    assert_eq!(ClientError::Io("broken pipe".into()).message(), "io error: broken pipe");
    assert_eq!(ClientError::Serialization("eof".into()).message(), "serialization error: eof");
}

fn sleeps(a: MonitorAction) -> u64 {
    match a {
        MonitorAction::Sleep { ms } => ms,
        _ => panic!("expected a sleep"),
    }
}

#[test]
fn monitor_backs_off_from_250_ms_to_8_s() {
    let config = ClientConfig::for_socket("/tmp/a.sock".to_string());
    let mut st = MonitorState::new(&config, true);
    let mut waits = Vec::new();
    for _ in 0..8 {
        waits.push(sleeps(monitor_step(&mut st, MonitorEvent::ConnectFailed)));
    }
    assert_eq!(waits, vec![250, 500, 1000, 2000, 4000, 8000, 8000, 8000]);
    assert_eq!(sleeps(monitor_step(&mut st, MonitorEvent::SubscribeFailed)), 8000);
}

#[test]
fn monitor_resyncs_after_every_connect() {
    let config = ClientConfig::for_socket("/tmp/a.sock".to_string());
    let mut st = MonitorState::new(&config, true);
    sleeps(monitor_step(&mut st, MonitorEvent::ConnectFailed));
    sleeps(monitor_step(&mut st, MonitorEvent::ConnectFailed));
    assert!(matches!(monitor_step(&mut st, MonitorEvent::Subscribed), MonitorAction::Deliver(ClientEvent::Resync)));
    assert_eq!(st.backoff_ms, 250);
    // A dropped connection waits the reset delay, and the next connect resyncs again.
    assert_eq!(sleeps(monitor_step(&mut st, MonitorEvent::Disconnected)), 250);
    assert!(matches!(monitor_step(&mut st, MonitorEvent::Subscribed), MonitorAction::Deliver(ClientEvent::Resync)));
}

#[test]
fn monitor_delivers_events_and_skips_the_rest() {
    let config = ClientConfig::for_socket("/tmp/a.sock".to_string());
    let mut st = MonitorState::new(&config, true);
    match monitor_step(&mut st, MonitorEvent::Line(event("DeviceRemoved", obj(vec![("id", s("usb"))])))) {
        MonitorAction::Deliver(ClientEvent::DeviceRemoved { id }) => assert_eq!(id, "usb"),
        _ => panic!(),
    }
    assert!(matches!(monitor_step(&mut st, MonitorEvent::Line(obj(vec![("id", s("x"))]))), MonitorAction::Listen));
    assert!(matches!(monitor_step(&mut st, MonitorEvent::Unreadable), MonitorAction::Listen));
    assert!(matches!(monitor_step(&mut st, MonitorEvent::ReceiverGone), MonitorAction::Stop));
    assert_eq!(st.backoff_ms, 250);
}

#[test]
fn level_monitor_listens_without_resync() {
    let config = ClientConfig { socket_path: "/tmp/a.sock".to_string(), retry_initial_ms: 100, retry_max_ms: 300 };
    let mut st = MonitorState::new(&config, false);
    assert_eq!(sleeps(monitor_step(&mut st, MonitorEvent::ConnectFailed)), 100);
    assert_eq!(sleeps(monitor_step(&mut st, MonitorEvent::ConnectFailed)), 200);
    assert_eq!(sleeps(monitor_step(&mut st, MonitorEvent::ConnectFailed)), 300);
    assert!(matches!(monitor_step(&mut st, MonitorEvent::Subscribed), MonitorAction::Listen));
    assert_eq!(st.backoff_ms, 100);
}

#[test]
fn requests_retry_only_on_connection_failures() {
    assert!(retries_after(&ClientError::Io("broken pipe".to_string())));
    assert!(retries_after(&ClientError::Disconnected));
    assert!(!retries_after(&ClientError::Protocol("x".to_string())));
    assert!(!retries_after(&ClientError::Daemon { code: "device-not-found".to_string(), message: "m".to_string() }));
}
