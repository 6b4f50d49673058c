//! In-memory "hardware" for development, CI, and non-Linux builds.

use vstd::prelude::*;

use crate::devices::{Bus, Device, DeviceKind, DeviceState, DeviceView, Direction};
use crate::errors::AudioError;
use crate::text::str_eq;

verus! {

/// A demo device as `Device::new` makes it, with its description and
/// profiles set.
pub open spec fn demo_device(
    id: Seq<char>,
    name: Seq<char>,
    description: Seq<char>,
    kind: DeviceKind,
    direction: Direction,
    bus: Bus,
    profiles: Seq<Seq<char>>,
    active: Seq<char>,
) -> DeviceView {
    DeviceView {
        id,
        name,
        description,
        kind,
        direction,
        bus,
        state: DeviceState::Available,
        profiles,
        active_profile: Some(active),
        channels: 2,
        sample_rates: seq![44100u32, 48000u32],
        volume: 50,
        muted: false,
        alsa: None,
    }
}

/// The five demo devices, in order.
pub open spec fn demo_devices() -> Seq<DeviceView> {
    seq![
        demo_device("speakers"@, "Internal Speakers"@, "Built-in speakers (demo hardware)"@, DeviceKind::Speakers,
            Direction::Output, Bus::Internal, seq!["stereo"@], "stereo"@),
        demo_device("headphones"@, "Analog Headphones"@, "3.5mm jack (demo hardware)"@, DeviceKind::Headphones,
            Direction::Output, Bus::Internal, seq!["stereo"@], "stereo"@),
        demo_device("hdmi0"@, "HDMI 0"@, "HDMI audio out (demo hardware)"@, DeviceKind::Hdmi, Direction::Output,
            Bus::Hdmi, seq!["hdmi-stereo"@, "stereo"@], "hdmi-stereo"@),
        demo_device("usb-mic"@, "USB Microphone"@, "USB condenser mic (demo hardware)"@, DeviceKind::Microphone,
            Direction::Input, Bus::Usb, seq!["stereo"@], "stereo"@),
        demo_device("bt-headset"@, "Bluetooth Headset"@,
            "A2DP/HFP headset (demo hardware — real BT via mitos-bluetooth)"@, DeviceKind::Headset, Direction::Both,
            Bus::Bluetooth, seq!["bluetooth-music"@, "bluetooth-headset"@], "bluetooth-music"@),
    ]
}

/// The index of the first device with id `id`, if any.
pub open spec fn first_with_id(s: Seq<DeviceView>, id: Seq<char>) -> Option<int> {
    if exists|i: int| 0 <= i < s.len() && #[trigger] s[i].id == id {
        Some(choose|i: int| 0 <= i < s.len() && #[trigger] s[i].id == id && forall|j: int| 0 <= j < i ==> s[j].id != id)
    } else {
        None
    }
}

pub open spec fn with_volume(d: DeviceView, volume: u32) -> DeviceView {
    DeviceView { volume, ..d }
}

pub open spec fn with_muted(d: DeviceView, muted: bool) -> DeviceView {
    DeviceView { muted, ..d }
}

/// In-memory "hardware". Behaves like real hardware: volume/mute writes
/// persist and are visible to later scans, so the daemon can be exercised
/// end-to-end without a sound card.
pub struct DemoBackend {
    devices: Vec<Device>,
}

fn demo(
    id: &str,
    name: &str,
    description: &str,
    kind: DeviceKind,
    direction: Direction,
    bus: Bus,
    profiles: Option<(&str, &str)>,
) -> (d: Device)
    ensures
        d@ == demo_device(
            id@,
            name@,
            description@,
            kind,
            direction,
            bus,
            match profiles {
                Some((a, b)) => seq![a@, b@],
                None => seq!["stereo"@],
            },
            match profiles {
                Some((a, _)) => a@,
                None => "stereo"@,
            },
        ),
{
    let mut d = Device::new(id, name, kind, direction, bus);
    d.description = String::from_str(description);
    match profiles {
        Some((a, b)) => {
            let mut list: Vec<String> = Vec::new();
            list.push(String::from_str(a));
            list.push(String::from_str(b));
            d.profiles = list;
            d.active_profile = Some(String::from_str(a));
        },
        None => {},
    }
    assert(d.profiles.deep_view() =~= match profiles {
        Some((a, b)) => seq![a@, b@],
        None => seq!["stereo"@],
    });
    d
}

impl DemoBackend {
    /// The devices, in order.
    pub closed spec fn devices(&self) -> Seq<DeviceView> {
        self.devices@.map_values(|d: Device| d@)
    }

    pub fn new() -> (b: Self)
        ensures
            b.devices() == demo_devices(),
    {
        let speakers = demo("speakers", "Internal Speakers", "Built-in speakers (demo hardware)",
            DeviceKind::Speakers, Direction::Output, Bus::Internal, None);
        let headphones = demo("headphones", "Analog Headphones", "3.5mm jack (demo hardware)",
            DeviceKind::Headphones, Direction::Output, Bus::Internal, None);
        let hdmi = demo("hdmi0", "HDMI 0", "HDMI audio out (demo hardware)", DeviceKind::Hdmi, Direction::Output,
            Bus::Hdmi, Some(("hdmi-stereo", "stereo")));
        let usb_mic = demo("usb-mic", "USB Microphone", "USB condenser mic (demo hardware)",
            DeviceKind::Microphone, Direction::Input, Bus::Usb, None);
        let bt = demo("bt-headset", "Bluetooth Headset",
            "A2DP/HFP headset (demo hardware — real BT via mitos-bluetooth)", DeviceKind::Headset,
            Direction::Both, Bus::Bluetooth, Some(("bluetooth-music", "bluetooth-headset")));
        let mut devices: Vec<Device> = Vec::new();
        devices.push(speakers);
        devices.push(headphones);
        devices.push(hdmi);
        devices.push(usb_mic);
        devices.push(bt);
        let b = DemoBackend { devices };
        assert(b.devices() =~= demo_devices());
        b
    }

    /// Stable backend identifier.
    pub fn name(&self) -> (r: &'static str)
        ensures
            r@ == "demo"@,
    {
        "demo"
    }

    /// All devices, with their current volume and mute.
    pub fn scan(&self) -> (r: Result<Vec<Device>, AudioError>)
        ensures
            r matches Ok(v) && v@.map_values(|d: Device| d@) == self.devices(),
    {
        let mut out: Vec<Device> = Vec::new();
        let mut i: usize = 0;
        while i < self.devices.len()
            invariant
                i <= self.devices@.len(),
                out@.len() == i,
                forall|k: int| 0 <= k < i ==> #[trigger] out@[k]@ == self.devices@[k]@,
            decreases self.devices@.len() - i,
        {
            out.push(self.devices[i].clone());
            i += 1;
        }
        assert(out@.map_values(|d: Device| d@) =~= self.devices());
        Ok(out)
    }

    /// Push a volume to the device with `device`'s id: `Ok(false)` when the
    /// hardware has no such device.
    pub fn set_volume(&mut self, device: &Device, volume: u32) -> (r: Result<bool, AudioError>)
        ensures
            match first_with_id(old(self).devices(), device.id@) {
                Some(i) => r == Ok::<bool, AudioError>(true) && final(self).devices() == old(self).devices().update(
                    i,
                    with_volume(old(self).devices()[i], volume),
                ),
                None => r == Ok::<bool, AudioError>(false) && final(self).devices() == old(self).devices(),
            },
    {
        match self.position_of(device.id.as_str()) {
            Some(i) => {
                let mut d = self.devices[i].clone();
                d.volume = volume;
                self.devices.set(i, d);
                assert(self.devices() =~= old(self).devices().update(i as int, with_volume(old(self).devices()[i as int], volume)));
                Ok(true)
            },
            None => Ok(false),
        }
    }

    /// Push a mute state to the device with `device`'s id: `Ok(false)` when
    /// the hardware has no such device.
    pub fn set_mute(&mut self, device: &Device, mute: bool) -> (r: Result<bool, AudioError>)
        ensures
            match first_with_id(old(self).devices(), device.id@) {
                Some(i) => r == Ok::<bool, AudioError>(true) && final(self).devices() == old(self).devices().update(
                    i,
                    with_muted(old(self).devices()[i], mute),
                ),
                None => r == Ok::<bool, AudioError>(false) && final(self).devices() == old(self).devices(),
            },
    {
        match self.position_of(device.id.as_str()) {
            Some(i) => {
                let mut d = self.devices[i].clone();
                d.muted = mute;
                self.devices.set(i, d);
                assert(self.devices() =~= old(self).devices().update(i as int, with_muted(old(self).devices()[i as int], mute)));
                Ok(true)
            },
            None => Ok(false),
        }
    }

    fn position_of(&self, id: &str) -> (r: Option<usize>)
        ensures
            r matches Some(k) ==> k < self.devices@.len() && first_with_id(self.devices(), id@) == Some(k as int),
            r is None ==> first_with_id(self.devices(), id@) is None,
    {
        let mut i: usize = 0;
        while i < self.devices.len()
            invariant
                i <= self.devices@.len(),
                forall|j: int| 0 <= j < i ==> #[trigger] self.devices()[j].id != id@,
            decreases self.devices@.len() - i,
        {
            if str_eq(self.devices[i].id.as_str(), id) {
                proof {
                    let s = self.devices();
                    assert(s[i as int].id == id@);
                    let k = choose|k: int| 0 <= k < s.len() && #[trigger] s[k].id == id@ && forall|j: int| 0 <= j < k ==> s[j].id != id@;
                    if k < i {
                        assert(s[k].id != id@);
                    }
                    if k > i {
                        assert(s[i as int].id != id@);
                    }
                }
                return Some(i);
            }
            i += 1;
        }
        None
    }
}

/// The first device with an id is the one before which none has it.
pub proof fn lemma_first_with_id(s: Seq<DeviceView>, id: Seq<char>, k: int)
    requires
        0 <= k < s.len(),
        s[k].id == id,
        forall|j: int| 0 <= j < k ==> s[j].id != id,
    ensures
        first_with_id(s, id) == Some(k),
{
    let c = choose|i: int| 0 <= i < s.len() && #[trigger] s[i].id == id && forall|j: int| 0 <= j < i ==> s[j].id != id;
    assert(0 <= c < s.len() && s[c].id == id && forall|j: int| 0 <= j < c ==> s[j].id != id);
    if c < k {
        assert(s[c].id != id);
    }
    if k < c {
        assert(s[k].id != id);
    }
}

/// Writes persist: after a volume or mute write to a device the hardware
/// has, looking the device up by id in the next scan finds the written
/// value; a write to an unknown device changes nothing.
pub proof fn law_demo_write_read_back(before: Seq<DeviceView>, id: Seq<char>, volume: u32, mute: bool)
    ensures
        first_with_id(before, id) matches Some(i) ==> ({
            let after_volume = before.update(i, with_volume(before[i], volume));
            let after_mute = before.update(i, with_muted(before[i], mute));
            &&& first_with_id(after_volume, id) == Some(i)
            &&& after_volume[i].volume == volume
            &&& first_with_id(after_mute, id) == Some(i)
            &&& after_mute[i].muted == mute
        }),
{
    if first_with_id(before, id) is Some {
        let i = choose|i: int| 0 <= i < before.len() && #[trigger] before[i].id == id && forall|j: int| 0 <= j < i ==> before[j].id != id;
        assert(exists|i: int| 0 <= i < before.len() && #[trigger] before[i].id == id);
        let w = choose|i: int| 0 <= i < before.len() && #[trigger] before[i].id == id;
        lemma_least_with_id(before, id, w);
        let after_volume = before.update(i, with_volume(before[i], volume));
        let after_mute = before.update(i, with_muted(before[i], mute));
        lemma_first_with_id(after_volume, id, i);
        lemma_first_with_id(after_mute, id, i);
    }
}

/// Where some device has the id, a first one has it.
proof fn lemma_least_with_id(s: Seq<DeviceView>, id: Seq<char>, w: int)
    requires
        0 <= w < s.len(),
        s[w].id == id,
    ensures
        exists|i: int| 0 <= i < s.len() && #[trigger] s[i].id == id && forall|j: int| 0 <= j < i ==> s[j].id != id,
    decreases w,
{
    if exists|j: int| 0 <= j < w && s[j].id == id {
        let j = choose|j: int| 0 <= j < w && s[j].id == id;
        lemma_least_with_id(s, id, j);
    } else {
        assert(forall|j: int| 0 <= j < w ==> s[j].id != id);
    }
}

} // verus!
