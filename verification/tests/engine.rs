use mitos_audio::engine::convert::{to_stereo, validate, SampleFormat, MIX_CHANNELS, MIX_RATE};
use mitos_audio::engine::dataplane::{on_frame, open_format, FrameAction, Refusal};
use mitos_audio::engine::levels::{OutputLevels, LEVEL_STALE_MS};
use mitos_audio::engine::live::{LiveStream, RING_CAP};
use mitos_audio::engine::protocol::{
    derive_data_socket, parse_header, Frame, OpenRequest, MAX_PAYLOAD, MSG_CLOSE, MSG_DATA, MSG_OPEN,
};
use mitos_audio::engine::sink::{SinkTable, IDLE_CLOSE_MS, OPEN_RETRY_MS};
use mitos_audio::errors::AudioError;

fn names(v: &[&str]) -> Vec<String> {
    v.iter().map(|s| s.to_string()).collect()
}

fn sorted(mut v: Vec<String>) -> Vec<String> {
    v.sort();
    v
}

#[test]
fn mono_upmixes() {
    let decoded = [0.25f32, 0.5];
    assert_eq!(to_stereo(&decoded, 1), vec![0.25, 0.25, 0.5, 0.5]);
}

#[test]
fn multichannel_takes_first_two() {
    let decoded = [0.1f32, 0.2, 0.3, 0.4, 0.5, 0.6];
    assert_eq!(to_stereo(&decoded, 3), vec![0.1, 0.2, 0.4, 0.5]);
}

#[test]
fn stereo_passes_through() {
    assert_eq!(to_stereo(&[1i16, 2, 3, 4], 2), vec![1, 2, 3, 4]);
    // A short last frame contributes its first two samples.
    assert_eq!(to_stereo(&[1i16, 2, 3, 4, 5, 6, 7, 8], 3), vec![1, 2, 4, 5, 7, 8]);
}

#[test]
fn canonical_format() {
    assert_eq!(MIX_RATE, 48_000);
    assert_eq!(MIX_CHANNELS, 2);
}

#[test]
fn sample_formats_parse_and_print() {
    assert_eq!(SampleFormat::parse("s16le").ok(), Some(SampleFormat::S16Le));
    assert_eq!(SampleFormat::parse("f32le").ok(), Some(SampleFormat::F32Le));
    assert_eq!(SampleFormat::S16Le.as_str(), "s16le");
    assert_eq!(SampleFormat::F32Le.as_str(), "f32le");
    match SampleFormat::parse("u8") {
        Err(AudioError::UnsupportedFormat(m)) => assert_eq!(m, "u8"),
        _ => panic!("u8 must be refused"),
    }
}

#[test]
fn validate_checks_rate_then_channels() {
    assert!(validate(48_000, 2).is_ok());
    assert!(validate(1_000, 1).is_ok());
    assert!(validate(384_000, 8).is_ok());
    match validate(999, 0) {
        Err(AudioError::UnsupportedFormat(m)) => assert_eq!(m, "sample rate 999"),
        _ => panic!(),
    }
    match validate(48_000, 9) {
        Err(AudioError::UnsupportedFormat(m)) => assert_eq!(m, "9 channels"),
        _ => panic!(),
    }
    match validate(48_000, 0) {
        Err(AudioError::UnsupportedFormat(m)) => assert_eq!(m, "0 channels"),
        _ => panic!(),
    }
}

#[test]
fn data_socket_beside_control_socket() {
    assert_eq!(derive_data_socket("/run/mitos/audio.sock"), "/run/mitos/audio-data.sock");
    assert_eq!(derive_data_socket("/tmp/control"), "/tmp/control-data");
    assert_eq!(derive_data_socket(".sock"), "-data.sock");
}

#[test]
fn frame_encoding_is_length_type_payload() {
    let buf = Frame::encode(MSG_DATA, &[9, 8, 7]);
    assert_eq!(buf, vec![3, 0, 0, 0, 0x02, 9, 8, 7]);
    let big = vec![0u8; 300];
    let buf = Frame::encode(MSG_OPEN, &big);
    assert_eq!(&buf[..5], &[44, 1, 0, 0, 0x01]);
    assert_eq!(buf.len(), 305);
    let f = Frame { kind: MSG_CLOSE, payload: Vec::new() };
    assert_eq!(Frame::encode(f.kind, &f.payload), vec![0, 0, 0, 0, 3]);
}

#[test]
fn header_round_trip_and_limit() {
    let payload = vec![1u8; 1000];
    let buf = Frame::encode(0x81, &payload);
    let header: [u8; 5] = [buf[0], buf[1], buf[2], buf[3], buf[4]];
    assert_eq!(parse_header(&header), Some((1000, 0x81)));
    assert_eq!(parse_header(&[0, 0, 16, 0, 2]), Some((MAX_PAYLOAD, 2)));
    assert_eq!(parse_header(&[1, 0, 16, 0, 2]), None);
    assert_eq!(parse_header(&[255, 255, 255, 255, 1]), None);
}

#[test]
fn one_stream_per_connection() {
    assert_eq!(on_frame(MSG_OPEN, false, false), FrameAction::Open);
    assert_eq!(on_frame(MSG_OPEN, true, false), FrameAction::Refuse(Refusal::AlreadyOpen));
    assert_eq!(on_frame(MSG_DATA, false, false), FrameAction::RefuseAndEnd(Refusal::DataBeforeOpen));
    assert_eq!(on_frame(MSG_DATA, true, false), FrameAction::Ingest);
    assert_eq!(on_frame(MSG_DATA, true, true), FrameAction::Skip);
    assert_eq!(on_frame(MSG_CLOSE, false, false), FrameAction::Close);
    assert_eq!(on_frame(0x7f, true, false), FrameAction::RefuseAndEnd(Refusal::UnknownType));
    assert_eq!(Refusal::AlreadyOpen.message(), "a stream is already open on this connection");
    assert_eq!(Refusal::DataBeforeOpen.message(), "DATA before OPEN");
    assert_eq!(Refusal::UnknownType.message(), "unknown frame type");
    assert_eq!(Refusal::UnknownType.code(), "ipc-error");
}

fn open(format: &str, rate: u32, channels: u16) -> OpenRequest {
    OpenRequest { application: "app".to_string(), sample_rate: rate, channels, format: format.to_string(), device: None }
}

#[test]
fn open_checks_format_name_first() {
    let f = open_format(&open("f32le", 44_100, 1)).ok().unwrap();
    assert_eq!((f.sample_rate, f.channels, f.format), (44_100, 1, SampleFormat::F32Le));
    match open_format(&open("mp3", 5, 0)) {
        Err(AudioError::UnsupportedFormat(m)) => assert_eq!(m, "mp3"),
        _ => panic!(),
    }
    match open_format(&open("s16le", 500_000, 2)) {
        Err(AudioError::UnsupportedFormat(m)) => assert_eq!(m, "sample rate 500000"),
        _ => panic!(),
    }
}

#[test]
fn sinks_open_for_targeted_present_devices() {
    let mut t = SinkTable::new();
    let plan = t.plan(&names(&["speakers", "gone"]), &names(&["speakers", "hdmi0"]), 10_000);
    assert_eq!(plan.open, names(&["speakers"]));
    assert!(plan.close.is_empty());
    // A failed open is retried only after OPEN_RETRY_MS.
    let plan = t.plan(&names(&["speakers"]), &names(&["speakers"]), 10_000 + OPEN_RETRY_MS - 1);
    assert!(plan.open.is_empty());
    let plan = t.plan(&names(&["speakers"]), &names(&["speakers"]), 10_000 + OPEN_RETRY_MS);
    assert_eq!(plan.open, names(&["speakers"]));
    t.opened("speakers", 12_000);
    assert_eq!(t.sink_count(), 1);
    assert!(t.has_sink("speakers"));
    let plan = t.plan(&names(&["speakers"]), &names(&["speakers"]), 20_000);
    assert!(plan.open.is_empty() && plan.close.is_empty());
}

#[test]
fn sinks_close_when_idle_or_vanished() {
    let mut t = SinkTable::new();
    t.opened("speakers", 0);
    t.opened("hdmi0", 0);
    t.opened("headphones", 0);
    // hdmi0 still targeted, headphones idle not long enough, speakers gone.
    let plan = t.plan(&names(&["hdmi0"]), &names(&["hdmi0", "headphones"]), IDLE_CLOSE_MS - 1);
    assert_eq!(plan.close, names(&["speakers"]));
    assert_eq!(t.sink_count(), 2);
    let plan = t.plan(&names(&[]), &names(&["hdmi0", "headphones"]), IDLE_CLOSE_MS);
    assert_eq!(sorted(plan.close), names(&["headphones"]));
    // hdmi0 was marked used at IDLE_CLOSE_MS - 1.
    let plan = t.plan(&names(&[]), &names(&["hdmi0"]), 2 * IDLE_CLOSE_MS - 1);
    assert_eq!(plan.close, names(&["hdmi0"]));
    assert_eq!(t.sink_count(), 0);
}

#[test]
fn levels_read_back_until_stale() {
    let mut l = OutputLevels::new();
    assert_eq!(l.read_at(0), (0, 0, false));
    let rms = 0.5f32.to_bits();
    let peak = 0.75f32.to_bits();
    l.store(rms, peak, true, 1_000);
    assert_eq!(l.previous(), (rms, peak));
    assert_eq!(l.read_at(1_000 + LEVEL_STALE_MS), (rms, peak, true));
    assert_eq!(l.read_at(1_001 + LEVEL_STALE_MS), (0, 0, false));
}

#[test]
fn live_stream_ring_keeps_newest_on_overflow() {
    let mut s: LiveStream<i32> = LiveStream::new("s-1", "app", "speakers");
    assert_eq!(s.id(), "s-1");
    assert_eq!(s.application(), "app");
    assert_eq!(s.volume(), 100);
    s.set_volume(250);
    assert_eq!(s.volume(), 100);
    s.set_volume(40);
    assert_eq!(s.volume(), 40);
    s.set_muted(true);
    assert!(s.muted());
    s.set_device("hdmi0");
    assert_eq!(s.device(), "hdmi0");

    let a: Vec<i32> = (0..96_000).collect();
    s.push(&a);
    assert_eq!(s.stats(), (0, 0));
    assert_eq!(s.buffered_ms(), 1000);
    s.push(&[96_000, 96_001]);
    assert_eq!(s.stats(), (0, 1));
    assert_eq!(s.buffered_ms(), 500);
    let out = s.take(4);
    assert_eq!(out, vec![48_002, 48_003, 48_004, 48_005]);
    let rest = s.take(RING_CAP);
    assert_eq!(rest.len(), RING_CAP / 2 - 4);
    assert_eq!(*rest.last().unwrap(), 96_001);
    assert_eq!(s.take(10), Vec::<i32>::new());
    s.note_starved();
    assert_eq!(s.stats(), (1, 1));
}

#[test]
fn live_stream_takes_whole_frames() {
    let mut s: LiveStream<u8> = LiveStream::new("s-2", "app", "speakers");
    s.push(&[1, 2, 3, 4, 5]);
    assert_eq!(s.take(3), vec![1, 2]);
    assert_eq!(s.take(10), vec![3, 4]);
    assert_eq!(s.take(10), Vec::<u8>::new());
}

#[test]
fn sinks_open_in_first_mention_order() {
    let mut t = SinkTable::new();
    let plan = t.plan(&names(&["hdmi0", "speakers", "hdmi0"]), &names(&["speakers", "hdmi0"]), 0);
    assert_eq!(plan.open, names(&["hdmi0", "speakers"]));
    t.opened("speakers", 0);
    t.opened("hdmi0", 0);
    let plan = t.plan(&names(&[]), &names(&[]), 1);
    assert_eq!(plan.close, names(&["hdmi0", "speakers"]));
}

#[test]
fn streams_without_a_device_follow_the_default_output() {
    let mut s: LiveStream<i32> = LiveStream::following("d-1", "game", "speakers");
    assert!(s.follows_default());
    assert_eq!(s.device(), "speakers");
    assert!(!s.follow_default("speakers"));
    assert!(s.follow_default("headphones"));
    assert_eq!(s.device(), "headphones");
    // An explicit move stops the following.
    s.set_device("hdmi");
    assert!(!s.follows_default());
    assert!(!s.follow_default("speakers"));
    assert_eq!(s.device(), "hdmi");
    let mut fixed: LiveStream<i32> = LiveStream::new("d-2", "music", "usb");
    assert!(!fixed.follow_default("speakers"));
    assert_eq!(fixed.device(), "usb");
}
