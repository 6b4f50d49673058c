use mitos_audio::backend::demo::DemoBackend;
use mitos_audio::backend::{backend_choice, BackendChoice};
use mitos_audio::config::AudioConfig;
use mitos_audio::devices::{devices_for, Bus, Device, DeviceKind, DeviceState, Direction};
use mitos_audio::persistence::{SaveQueue, Settings, DEBOUNCE_MS};
use mitos_audio::errors::AudioError;
use mitos_audio::ipc::messages::{Command, Event, Reply};
use mitos_audio::manager::state::{Outcome, Step};
use mitos_audio::manager::AudioState;

fn finished(step: Step) -> Outcome {
    match step {
        Step::Finished(o) => o,
        _ => panic!("expected a finished command"),
    }
}

fn demo_state() -> (AudioState, DemoBackend) {
    let mut st = AudioState::new(&AudioConfig::default(), "demo");
    let backend = DemoBackend::new();
    let scan = backend.scan().ok().unwrap();
    st.refresh(scan);
    (st, backend)
}

#[test]
fn demo_backend_has_five_devices() {
    let b = DemoBackend::new();
    assert_eq!(b.name(), "demo");
    let devices = b.scan().ok().unwrap();
    let ids: Vec<&str> = devices.iter().map(|d| d.id.as_str()).collect();
    assert_eq!(ids, vec!["speakers", "headphones", "hdmi0", "usb-mic", "bt-headset"]);
    assert_eq!(devices[2].profiles, vec!["hdmi-stereo".to_string(), "stereo".to_string()]);
    assert_eq!(devices[2].active_profile.as_deref(), Some("hdmi-stereo"));
    assert_eq!(devices[0].description, "Built-in speakers (demo hardware)");
    assert_eq!(devices[4].direction, Direction::Both);
}

#[test]
fn demo_writes_are_visible_to_later_scans() {
    let mut b = DemoBackend::new();
    let hdmi = Device::new("hdmi0", "HDMI 0", DeviceKind::Hdmi, Direction::Output, Bus::Hdmi);
    assert_eq!(b.set_volume(&hdmi, 80).ok(), Some(true));
    assert_eq!(b.set_mute(&hdmi, true).ok(), Some(true));
    let scan = b.scan().ok().unwrap();
    assert_eq!((scan[2].volume, scan[2].muted), (80, true));
    assert_eq!(scan[0].volume, 50);
    let ghost = Device::new("nope", "Nope", DeviceKind::Usb, Direction::Output, Bus::Usb);
    assert_eq!(b.set_volume(&ghost, 10).ok(), Some(false));
    assert_eq!(b.set_mute(&ghost, true).ok(), Some(false));
}

#[test]
fn backend_choice_by_name() {
    assert_eq!(backend_choice("demo"), BackendChoice::Demo);
    assert_eq!(backend_choice("alsa"), BackendChoice::Alsa);
    assert_eq!(backend_choice("auto"), BackendChoice::Auto);
    assert_eq!(backend_choice("pipewire"), BackendChoice::Auto);
}

#[test]
fn first_scan_adds_devices_and_picks_defaults() {
    let mut st = AudioState::new(&AudioConfig::default(), "demo");
    let scan = DemoBackend::new().scan().ok().unwrap();
    let events = st.refresh(scan);
    assert_eq!(events.len(), 7);
    assert!(matches!(&events[0], Event::DeviceAdded { id, .. } if id == "speakers"));
    assert!(matches!(&events[4], Event::DeviceAdded { id, name } if id == "bt-headset" && name == "Bluetooth Headset"));
    assert!(matches!(&events[5], Event::DefaultOutputChanged { id } if id == "headphones"));
    assert!(matches!(&events[6], Event::DefaultInputChanged { id } if id == "usb-mic"));
    match finished(st.handle(Command::GetDefaults)).result {
        Ok(Reply::Defaults { default_output, default_input }) => {
            assert_eq!(default_output.as_deref(), Some("headphones"));
            assert_eq!(default_input.as_deref(), Some("usb-mic"));
        }
        _ => panic!(),
    }
    match finished(st.handle(Command::GetDevice { id: "headphones".into() })).result {
        Ok(Reply::Device(d)) => assert_eq!(d.state, DeviceState::Active),
        _ => panic!(),
    }
}

#[test]
fn rescanning_the_same_hardware_changes_nothing() {
    let (mut st, backend) = demo_state();
    let events = st.refresh(backend.scan().ok().unwrap());
    assert!(events.is_empty());
}

#[test]
fn vanished_default_is_replaced() {
    let (mut st, backend) = demo_state();
    let scan: Vec<Device> = backend.scan().ok().unwrap().into_iter().filter(|d| d.id != "headphones").collect();
    let events = st.refresh(scan);
    assert_eq!(events.len(), 2);
    assert!(matches!(&events[0], Event::DeviceRemoved { id } if id == "headphones"));
    assert!(matches!(&events[1], Event::DefaultOutputChanged { id } if id == "speakers"));
}

#[test]
fn changed_hardware_is_reported() {
    let (mut st, mut backend) = demo_state();
    let speakers = Device::new("speakers", "Internal Speakers", DeviceKind::Speakers, Direction::Output, Bus::Internal);
    backend.set_volume(&speakers, 10);
    let events = st.refresh(backend.scan().ok().unwrap());
    assert_eq!(events.len(), 1);
    assert!(matches!(&events[0], Event::DeviceChanged { id } if id == "speakers"));
}

#[test]
fn master_volume_is_read_back() {
    let (mut st, mut backend) = demo_state();
    let (device, volume) = match st.handle(Command::SetVolume { device: None, volume: 60 }) {
        Step::PushVolume { device, volume } => (device, volume),
        _ => panic!("expected a hardware write"),
    };
    assert_eq!(device.id, "headphones");
    let applied = backend.set_volume(&device, volume).ok().unwrap();
    let o = st.complete_volume(device.id.clone(), volume, applied);
    assert!(matches!(&o.result, Ok(Reply::VolumeSet { device, volume: 60, hw_applied: true }) if device == "headphones"));
    assert!(matches!(&o.events[0], Event::VolumeChanged { device: Some(d), volume: 60 } if d == "headphones"));
    match finished(st.handle(Command::GetVolume { device: None })).result {
        Ok(Reply::Volume { device, volume, muted }) => {
            assert_eq!((device.as_str(), volume, muted), ("headphones", 60, false));
        }
        _ => panic!(),
    }
    match finished(st.handle(Command::GetLevels)).result {
        Ok(Reply::Levels { master_volume, muted }) => assert_eq!((master_volume, muted), (60, false)),
        _ => panic!(),
    }
}

#[test]
fn volume_errors() {
    let (mut st, _) = demo_state();
    assert!(matches!(finished(st.handle(Command::SetVolume { device: None, volume: 101 })).result,
        Err(AudioError::InvalidVolume(101))));
    assert!(matches!(finished(st.handle(Command::SetVolume { device: Some("x".into()), volume: 1 })).result,
        Err(AudioError::DeviceNotFound(ref id)) if id == "x"));
    let mut empty = AudioState::new(&AudioConfig::default(), "alsa");
    assert!(matches!(finished(empty.handle(Command::GetVolume { device: None })).result, Err(AudioError::NoOutput)));
    assert!(matches!(finished(empty.handle(Command::Mute)).result, Err(AudioError::NoOutput)));
}

#[test]
fn mute_goes_to_the_default_output() {
    let (mut st, mut backend) = demo_state();
    let (device, muted) = match st.handle(Command::Mute) {
        Step::PushMute { device, muted } => (device, muted),
        _ => panic!(),
    };
    assert!(muted);
    let applied = backend.set_mute(&device, muted).ok().unwrap();
    let o = st.complete_mute(device.id.clone(), muted, applied);
    assert!(matches!(&o.events[0], Event::MuteChanged { muted: true }));
    match finished(st.handle(Command::GetVolume { device: None })).result {
        Ok(Reply::Volume { muted, .. }) => assert!(muted),
        _ => panic!(),
    }
}

#[test]
fn default_output_switch_is_read_back() {
    let (mut st, _) = demo_state();
    let o = finished(st.handle(Command::SetDefaultOutput { id: "hdmi0".into() }));
    assert!(matches!(&o.result, Ok(Reply::DefaultOutput { id }) if id == "hdmi0"));
    assert!(matches!(&o.events[0], Event::DefaultOutputChanged { id } if id == "hdmi0"));
    match finished(st.handle(Command::GetDevice { id: "hdmi0".into() })).result {
        Ok(Reply::Device(d)) => assert_eq!(d.state, DeviceState::Active),
        _ => panic!(),
    }
    match finished(st.handle(Command::GetDevice { id: "headphones".into() })).result {
        Ok(Reply::Device(d)) => assert_eq!(d.state, DeviceState::Available),
        _ => panic!(),
    }
    assert!(matches!(finished(st.handle(Command::SetDefaultOutput { id: "usb-mic".into() })).result,
        Err(AudioError::NotAnOutput(_))));
    assert!(matches!(finished(st.handle(Command::SetDefaultInput { id: "speakers".into() })).result,
        Err(AudioError::NotAnInput(_))));
    assert!(matches!(finished(st.handle(Command::SetDefaultInput { id: "missing".into() })).result,
        Err(AudioError::DeviceNotFound(_))));
}

#[test]
fn streams_are_steered() {
    let (mut st, _) = demo_state();
    let o = finished(st.handle(Command::SetStreamVolume { stream_id: "s-1".into(), volume: 30 }));
    assert!(matches!(&o.events[0], Event::StreamChanged { id } if id == "s-1"));
    let o = finished(st.handle(Command::MoveStream { stream_id: "s-1".into(), device_id: "hdmi0".into() }));
    assert!(matches!(&o.result, Ok(Reply::StreamMoved { device, .. }) if device == "hdmi0"));
    match finished(st.handle(Command::ListStreams)).result {
        Ok(Reply::Streams { streams }) => {
            assert_eq!(streams.len(), 1);
            assert_eq!((streams[0].volume, streams[0].device.as_str()), (30, "hdmi0"));
        }
        _ => panic!(),
    }
    assert!(matches!(finished(st.handle(Command::SetStreamMute { stream_id: "s-9".into(), mute: true })).result,
        Err(AudioError::StreamNotFound(_))));
    assert!(matches!(finished(st.handle(Command::MoveStream { stream_id: "s-1".into(), device_id: "x".into() })).result,
        Err(AudioError::DeviceNotFound(_))));
}

#[test]
fn profiles_and_microphone() {
    let (mut st, _) = demo_state();
    assert!(matches!(finished(st.handle(Command::SetProfile { profile: "karaoke".into() })).result,
        Err(AudioError::InvalidProfile(_))));
    let o = finished(st.handle(Command::SetProfile { profile: "surround-5.1".into() }));
    assert!(matches!(&o.events[0], Event::ProfileChanged { profile } if profile == "surround-5.1"));
    match finished(st.handle(Command::ListProfiles)).result {
        Ok(Reply::Profiles { profiles, active }) => {
            assert_eq!(profiles.len(), 9);
            assert_eq!(active, "surround-5.1");
        }
        _ => panic!(),
    }
    let o = finished(st.handle(Command::SetMicrophoneGain { gain: 45 }));
    assert!(matches!(o.result, Ok(Reply::MicrophoneGain { gain_db: 30 })));
    let o = finished(st.handle(Command::MuteMicrophone { mute: true }));
    assert!(matches!(&o.events[0], Event::MicrophoneChanged { muted: true, gain: 30 }));
    match finished(st.handle(Command::GetMicrophone)).result {
        Ok(Reply::Microphone { device, muted, gain_db }) => {
            assert_eq!(device.unwrap().id, "usb-mic");
            assert!(muted);
            assert_eq!(gain_db, 30);
        }
        _ => panic!(),
    }
}

#[test]
fn rescan_reports_the_device_list() {
    let (mut st, backend) = demo_state();
    assert!(matches!(st.handle(Command::Rescan), Step::Rescan));
    let o = st.complete_rescan(backend.scan().ok().unwrap());
    match o.result {
        Ok(Reply::Devices { devices, default_output, .. }) => {
            assert_eq!(devices.len(), 5);
            assert_eq!(devices[0].id, "bt-headset");
            assert_eq!(default_output.as_deref(), Some("headphones"));
        }
        _ => panic!(),
    }
    assert!(o.events.is_empty());
}

#[test]
fn ping_and_state() {
    let (mut st, _) = demo_state();
    assert!(matches!(finished(st.handle(Command::Ping)).result, Ok(Reply::Pong)));
    match finished(st.handle(Command::GetState)).result {
        Ok(Reply::State(s)) => {
            assert_eq!(s.backend, "demo");
            assert_eq!(s.devices.len(), 5);
            assert_eq!(s.streams.len(), 1);
            assert_eq!(s.profile, "stereo");
            assert_eq!(s.master_volume, 50);
        }
        _ => panic!(),
    }
}

#[test]
fn device_listings_filter_by_direction() {
    let all = DemoBackend::new().scan().ok().unwrap();
    let ids = |v: Vec<Device>| v.into_iter().map(|d| d.id).collect::<Vec<_>>();
    assert_eq!(ids(devices_for(&all, None)).len(), 5);
    assert_eq!(ids(devices_for(&all, Some(Direction::Input))), vec!["usb-mic", "bt-headset"]);
    assert_eq!(ids(devices_for(&all, Some(Direction::Output))), vec!["speakers", "headphones", "hdmi0", "bt-headset"]);
    assert_eq!(ids(devices_for(&all, Some(Direction::Both))), vec!["speakers", "headphones", "hdmi0", "bt-headset"]);
}

#[test]
fn settings_saves_are_debounced() {
    let mut q = SaveQueue::new();
    assert_eq!(q.deadline(), None);
    assert!(q.take_due(1_000, false).is_none());
    let mut first = Settings::default();
    first.mic_gain = 3;
    q.request(first, 1_000);
    let mut second = Settings::default();
    second.mic_gain = 7;
    q.request(second, 1_200);
    assert_eq!(q.deadline(), Some(1_200 + DEBOUNCE_MS));
    assert!(q.take_due(1_599, false).is_none());
    let saved = q.take_due(1_600, false).unwrap();
    assert_eq!(saved.mic_gain, 7);
    assert!(q.take_due(5_000, true).is_none());
    q.request(Settings::default(), u64::MAX - 1);
    assert_eq!(q.deadline(), Some(u64::MAX));
    assert!(q.take_due(0, true).is_some());
}

#[test]
fn default_input_switch_is_read_back() {
    let (mut st, _) = demo_state();
    let o = finished(st.handle(Command::SetDefaultInput { id: "bt-headset".into() }));
    assert!(matches!(&o.result, Ok(Reply::DefaultInput { id }) if id == "bt-headset"));
    assert!(matches!(&o.events[0], Event::DefaultInputChanged { id } if id == "bt-headset"));
    match finished(st.handle(Command::GetDevice { id: "bt-headset".into() })).result {
        Ok(Reply::Device(d)) => assert_eq!(d.state, DeviceState::Active),
        _ => panic!(),
    }
    match finished(st.handle(Command::GetDevice { id: "usb-mic".into() })).result {
        Ok(Reply::Device(d)) => assert_eq!(d.state, DeviceState::Available),
        _ => panic!(),
    }
}

#[test]
fn stream_mute_is_read_back() {
    let (mut st, _) = demo_state();
    let o = finished(st.handle(Command::SetStreamMute { stream_id: "s-1".into(), mute: true }));
    assert!(matches!(&o.result, Ok(Reply::StreamMute { muted: true, .. })));
    match finished(st.handle(Command::ListStreams)).result {
        Ok(Reply::Streams { streams }) => assert!(streams[0].muted),
        _ => panic!(),
    }
}
