use mitos_audio::errors::AudioError;
use mitos_audio::ipc::json::{JsonNumber, JsonValue};
use mitos_audio::ipc::messages::{route_request, Command, LineAction, Reply, Request, Response};
use mitos_audio::ipc::permissions::Permissions;
use serde_json::Value;

fn obj(members: Vec<(&str, JsonValue)>) -> JsonValue {
    JsonValue::Object(members.into_iter().map(|(k, v)| (k.to_string(), v)).collect())
}

fn s(v: &str) -> JsonValue {
    JsonValue::String(v.to_string())
}

fn n(v: u64) -> JsonValue {
    JsonValue::Number(JsonNumber::PosInt(v))
}

fn req(command: &str, params: JsonValue) -> Request {
    Request { id: 7, command: command.to_string(), params }
}

fn ipc_message(r: Result<Command, AudioError>) -> String {
    match r {
        Err(AudioError::Ipc(m)) => m,
        _ => panic!("expected an ipc error"),
    }
}

#[test]
fn json_accessors() {
    let v = obj(vec![("a", n(5)), ("b", s("x")), ("a", n(6))]);
    assert_eq!(v.get("a").and_then(|x| x.as_u64()), Some(5));
    assert_eq!(v.get("b").and_then(|x| x.as_str()), Some("x"));
    assert!(v.get("c").is_none());
    assert!(s("x").get("a").is_none());
    assert_eq!(JsonValue::Number(JsonNumber::NegInt(-3)).as_i64(), Some(-3));
    assert_eq!(n(u64::MAX).as_i64(), None);
    assert_eq!(JsonValue::Number(JsonNumber::Float("1.5".to_string())).as_u64(), None);
    assert_eq!(JsonValue::Bool(true).as_bool(), Some(true));
    assert!(JsonValue::Null.is_null());
}

#[test]
fn plain_commands_decode() {
    assert!(matches!(req("Ping", JsonValue::Null).command(), Ok(Command::Ping)));
    assert!(matches!(req("GetState", JsonValue::Null).command(), Ok(Command::GetState)));
    assert!(matches!(req("Mute", obj(vec![])).command(), Ok(Command::Mute)));
    assert!(matches!(req("Rescan", JsonValue::Null).command(), Ok(Command::Rescan)));
    assert!(matches!(req("SubscribeEvents", JsonValue::Null).command(), Ok(Command::SubscribeEvents)));
}

#[test]
fn parameters_decode() {
    match req("SetVolume", obj(vec![("volume", n(60))])).command() {
        Ok(Command::SetVolume { device: None, volume: 60 }) => {}
        _ => panic!(),
    }
    match req("SetVolume", obj(vec![("device", s("hdmi0")), ("volume", n(5))])).command() {
        Ok(Command::SetVolume { device: Some(d), volume: 5 }) => assert_eq!(d, "hdmi0"),
        _ => panic!(),
    }
    match req("GetVolume", obj(vec![("device", JsonValue::Null)])).command() {
        Ok(Command::GetVolume { device: None }) => {}
        _ => panic!(),
    }
    match req("MoveStream", obj(vec![("stream_id", s("s-1")), ("device_id", s("headphones"))])).command() {
        Ok(Command::MoveStream { stream_id, device_id }) => {
            assert_eq!(stream_id, "s-1");
            assert_eq!(device_id, "headphones");
        }
        _ => panic!(),
    }
    match req("SetMicrophoneGain", obj(vec![("gain", JsonValue::Number(JsonNumber::NegInt(-12)))])).command() {
        Ok(Command::SetMicrophoneGain { gain: -12 }) => {}
        _ => panic!(),
    }
    match req("SetStreamMute", obj(vec![("stream_id", s("s-1")), ("mute", JsonValue::Bool(true))])).command() {
        Ok(Command::SetStreamMute { stream_id, mute: true }) => assert_eq!(stream_id, "s-1"),
        _ => panic!(),
    }
}

#[test]
fn unknown_and_mistyped_commands_are_refused() {
    assert_eq!(ipc_message(req("Explode", JsonValue::Null).command()), "unknown command: Explode");
    assert_eq!(
        ipc_message(req("GetDevice", JsonValue::Null).command()),
        "invalid parameter 'id': invalid type: null, expected a string"
    );
    assert_eq!(
        ipc_message(req("SetVolume", obj(vec![("volume", s("loud"))])).command()),
        "invalid parameter 'volume': invalid type: string \"loud\", expected u32"
    );
    assert_eq!(
        ipc_message(req("SetVolume", obj(vec![("volume", n(5_000_000_000))])).command()),
        "invalid parameter 'volume': invalid value: integer `5000000000`, expected u32"
    );
    assert_eq!(
        ipc_message(req("SetVolume", obj(vec![("volume", JsonValue::Number(JsonNumber::NegInt(-1)))])).command()),
        "invalid parameter 'volume': invalid value: integer `-1`, expected u32"
    );
    assert_eq!(
        ipc_message(
            req("SetVolume", obj(vec![("volume", JsonValue::Number(JsonNumber::Float("1.5".to_string())))])).command()
        ),
        "invalid parameter 'volume': invalid type: floating point `1.5`, expected u32"
    );
    // The device is checked before the volume.
    assert_eq!(
        ipc_message(req("SetVolume", obj(vec![("device", n(1))])).command()),
        "invalid parameter 'device': invalid type: integer `1`, expected a string"
    );
    assert_eq!(
        ipc_message(req("MuteMicrophone", obj(vec![("mute", n(1))])).command()),
        "invalid parameter 'mute': invalid type: integer `1`, expected a boolean"
    );
    assert_eq!(
        ipc_message(req("SetMicrophoneGain", obj(vec![("gain", n(3_000_000_000))])).command()),
        "invalid parameter 'gain': invalid value: integer `3000000000`, expected i32"
    );
    assert_eq!(
        ipc_message(req("SetMicrophoneGain", obj(vec![("gain", JsonValue::Array(vec![]))])).command()),
        "invalid parameter 'gain': invalid type: sequence, expected i32"
    );
    assert_eq!(
        ipc_message(req("SetStreamMute", obj(vec![("stream_id", s("a")), ("mute", obj(vec![]))])).command()),
        "invalid parameter 'mute': invalid type: map, expected a boolean"
    );
    assert_eq!(
        ipc_message(req("SetProfile", obj(vec![("profile", JsonValue::Bool(false))])).command()),
        "invalid parameter 'profile': invalid type: boolean `false`, expected a string"
    );
}

/// The JSON reader's own message for a value that does not decode as `T`.
fn reader_says<T: serde::de::DeserializeOwned + std::fmt::Debug>(v: serde_json::Value) -> String {
    serde_json::from_value::<T>(v).unwrap_err().to_string()
}

#[test]
fn refusals_read_as_the_json_reader_words_them() {
    let cases: Vec<(JsonValue, Value)> = vec![
        (JsonValue::Null, Value::Null),
        (s("say \"hi\"\n"), Value::String("say \"hi\"\n".to_string())),
        (n(5_000_000_000), Value::from(5_000_000_000u64)),
        (JsonValue::Number(JsonNumber::NegInt(-7)), Value::from(-7i64)),
        (JsonValue::Number(JsonNumber::NegInt(i64::MIN)), Value::from(i64::MIN)),
        (JsonValue::Number(JsonNumber::Float(serde_json::Number::from_f64(2.0).unwrap().to_string())), Value::from(2.0f64)),
        (JsonValue::Bool(true), Value::Bool(true)),
        (JsonValue::Array(vec![]), Value::Array(vec![])),
        (obj(vec![]), Value::Object(serde_json::Map::new())),
    ];
    for (ours, theirs) in cases {
        let m = ipc_message(req("SetVolume", obj(vec![("volume", ours)])).command());
        assert_eq!(m, format!("invalid parameter 'volume': {}", reader_says::<u32>(theirs)));
    }
}

#[test]
fn lines_are_routed() {
    match route_request(Err("EOF while parsing".to_string())) {
        LineAction::Answer(r) => {
            assert_eq!(r.id, 0);
            assert!(!r.ok);
            let b = r.error.unwrap();
            assert_eq!(b.code, "ipc-error");
            assert_eq!(b.message, "ipc error: malformed request: EOF while parsing");
        }
        _ => panic!(),
    }
    assert!(matches!(route_request(Ok(req("SubscribeEvents", JsonValue::Null))), LineAction::Subscribe { id: 7 }));
    assert!(matches!(route_request(Ok(req("Ping", JsonValue::Null))), LineAction::Handle { id: 7, command: Command::Ping }));
    match route_request(Ok(req("Nope", JsonValue::Null))) {
        LineAction::Answer(r) => {
            assert_eq!(r.id, 7);
            assert_eq!(r.error.unwrap().message, "ipc error: unknown command: Nope");
        }
        _ => panic!(),
    }
}

#[test]
fn responses_carry_code_and_message() {
    let r = Response::from_error(3, &AudioError::DeviceNotFound("foo".to_string()));
    assert_eq!(r.id, 3);
    assert!(!r.ok && r.result.is_none());
    let b = r.error.unwrap();
    assert_eq!(b.code, "device-not-found");
    assert_eq!(b.message, "device not found: foo");
    let ok = Response::ok(4, Reply::Pong);
    assert!(ok.ok && ok.error.is_none() && matches!(ok.result, Some(Reply::Pong)));
}

#[test]
fn error_codes_and_messages() {
    let cases: Vec<(AudioError, &str, &str)> = vec![
        (AudioError::DeviceNotFound("x".into()), "device-not-found", "device not found: x"),
        (AudioError::StreamNotFound("s".into()), "stream-not-found", "stream not found: s"),
        (AudioError::InvalidVolume(150), "invalid-volume", "invalid volume: 150"),
        (AudioError::InvalidProfile("p".into()), "invalid-profile", "unknown profile: p"),
        (AudioError::NotAnOutput("m".into()), "not-an-output", "device m is not an output"),
        (AudioError::NotAnInput("o".into()), "not-an-input", "device o is not an input"),
        (AudioError::UnsupportedFormat("u8".into()), "unsupported-format", "unsupported format: u8"),
        (AudioError::Ipc("bad".into()), "ipc-error", "ipc error: bad"),
        (AudioError::Config("c".into()), "config-error", "configuration error: c"),
        (AudioError::ConfigParse("t".into()), "config-parse-error", "configuration parse error: t"),
        (AudioError::Io("i".into()), "io-error", "io error: i"),
        (AudioError::NoOutput, "no-output-device", "no output device available"),
        (AudioError::NoInput, "no-input-device", "no input device available"),
        (AudioError::Backend("b".into()), "backend-error", "audio backend error: b"),
        (AudioError::Serialization("j".into()), "serialization-error", "serialization error: j"),
    ];
    for (e, code, message) in cases {
        assert_eq!(e.code(), code);
        assert_eq!(e.message(), message);
    }
}

#[test]
fn permissions_allow_root_and_daemon_uid() {
    let p = Permissions::new(1000);
    assert!(p.check_uid(Some(0)));
    assert!(p.check_uid(Some(1000)));
    assert!(!p.check_uid(Some(1001)));
    assert!(!p.check_uid(None));
}
