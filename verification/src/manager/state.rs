//! Central audio state and command decisions.
//!
//! The backend owns *hardware truth* (which devices exist, their live
//! volume/mute); this state owns policy (defaults, profiles, mic settings).
//! Commands that must touch hardware return a [`Step`] naming the write;
//! the caller performs it and completes the command with its outcome.

use vstd::prelude::*;

use crate::config::AudioConfig;
use crate::devices::{opt_strings_equal, opt_view, Device, DeviceState, DeviceView, Direction};
use crate::errors::AudioError;
use crate::ipc::messages::{Command, Event, Reply, Snapshot};
use crate::keyed::{has_key, index_of_key, key_map, keys_sorted, lemma_key_map_at, lemma_sorted_unique, lemma_update_sorted, position, Keyed};
use crate::streams::{AudioStream, StreamKind, StreamState, StreamView};
use crate::text::str_eq;
use crate::manager::reconcile::{merge_events_from, merged_from, merge_scan, pick_default, preferred, ranks_first, removal_events, retain_scanned, retained, state_for, mark_states, lemma_ranks_first_unique};

verus! {

// ───────────────────────── profiles ─────────────────────────

pub open spec fn known_profiles() -> Seq<Seq<char>> {
    seq![
        "stereo"@, "headphones"@, "headset"@, "hdmi-stereo"@, "surround-5.1"@,
        "surround-7.1"@, "bluetooth-music"@, "bluetooth-headset"@, "usb-dac"@,
    ]
}

pub open spec fn known_profile(p: Seq<char>) -> bool {
    known_profiles().contains(p)
}

pub fn is_known_profile(p: &str) -> (r: bool)
    ensures
        r == known_profile(p@),
{
    let r = str_eq(p, "stereo") || str_eq(p, "headphones") || str_eq(p, "headset")
        || str_eq(p, "hdmi-stereo") || str_eq(p, "surround-5.1") || str_eq(p, "surround-7.1")
        || str_eq(p, "bluetooth-music") || str_eq(p, "bluetooth-headset") || str_eq(p, "usb-dac");
    proof {
        let ks = known_profiles();
        if known_profile(p@) {
            let k = choose|k: int| 0 <= k < ks.len() && ks[k] == p@;
            assert(r);
        }
        if r {
            assert(p@ == ks[0] || p@ == ks[1] || p@ == ks[2] || p@ == ks[3] || p@ == ks[4]
                || p@ == ks[5] || p@ == ks[6] || p@ == ks[7] || p@ == ks[8]);
        }
    }
    r
}

pub fn known_profile_list() -> (v: Vec<String>)
    ensures
        v.deep_view() == known_profiles(),
{
    let mut v: Vec<String> = Vec::new();
    v.push(String::from_str("stereo"));
    v.push(String::from_str("headphones"));
    v.push(String::from_str("headset"));
    v.push(String::from_str("hdmi-stereo"));
    v.push(String::from_str("surround-5.1"));
    v.push(String::from_str("surround-7.1"));
    v.push(String::from_str("bluetooth-music"));
    v.push(String::from_str("bluetooth-headset"));
    v.push(String::from_str("usb-dac"));
    assert(v.deep_view() =~= known_profiles());
    v
}

// ───────────────────────── views of the state ─────────────────────────

/// The record with key `k`, when there is one.
pub open spec fn lookup<T: Keyed>(s: Seq<T>, k: Seq<char>) -> Option<T> {
    if has_key(s, k) {
        Some(s[index_of_key(s, k)])
    } else {
        None
    }
}

/// `o` names a device present in `devs` whose direction is not `excluded`.
pub open spec fn valid_default(devs: Seq<Device>, o: Option<String>, excluded: Direction) -> bool {
    match o {
        None => true,
        Some(id) => exists|i: int| 0 <= i < devs.len() && #[trigger] devs[i].id@ == id@ && devs[i].direction != excluded,
    }
}

/// Master volume and mute: those of the default output device, or `(0, false)`.
pub open spec fn master_of(devs: Seq<Device>, o: Option<String>) -> (u32, bool) {
    match o {
        Some(id) => match lookup(devs, id@) {
            Some(d) => (d.volume, d.muted),
            None => (0, false),
        },
        None => (0, false),
    }
}

/// Two device lists hold the same values, in order.
pub open spec fn same_views(a: Seq<Device>, b: Seq<Device>) -> bool {
    a.len() == b.len() && forall|i: int| 0 <= i < a.len() ==> #[trigger] a[i]@ == b[i]@
}

/// The optional device equals (by value) the one with key `k`, if any.
pub open spec fn same_lookup(d: Option<Device>, s: Seq<Device>, k: Option<String>) -> bool {
    match k {
        Some(id) => match lookup(s, id@) {
            Some(x) => d matches Some(y) && y@ == x@,
            None => d is None,
        },
        None => d is None,
    }
}

/// The device list with the state of each device chosen by `f`.
pub open spec fn device_with_state(d: Device, state: DeviceState) -> Device {
    Device { state, ..d }
}

pub open spec fn stream_with_volume(s: AudioStream, volume: u32) -> AudioStream {
    AudioStream { volume, ..s }
}

pub open spec fn stream_with_mute(s: AudioStream, muted: bool) -> AudioStream {
    AudioStream { muted, ..s }
}

/// An explicit move: the stream plays on `device` and no longer follows
/// the default output.
pub open spec fn stream_with_device(s: AudioStream, device: String) -> AudioStream {
    AudioStream { device, follows_default: false, ..s }
}

pub open spec fn clamp_gain(gain: i32) -> i32 {
    if gain < -30 {
        -30i32
    } else if gain > 30 {
        30i32
    } else {
        gain
    }
}

/// The stream present before applications register (demo backend).
pub open spec fn demo_stream() -> StreamView {
    StreamView {
        id: "s-1"@,
        application: "mitos-music"@,
        kind: StreamKind::Playback,
        device: "speakers"@,
        volume: 100,
        muted: false,
        sample_rate: 48000,
        channels: 2,
        format: "s16le"@,
        state: StreamState::Running,
        follows_default: false,
    }
}

/// What a finished command produced: its result and the events to emit.
pub struct Outcome {
    pub result: Result<Reply, AudioError>,
    pub events: Vec<Event>,
}

/// The next thing to do for a command.
pub enum Step {
    /// The command is complete.
    Finished(Outcome),
    /// Write `volume` to the hardware of `device`, then call
    /// [`AudioState::complete_volume`].
    PushVolume { device: Device, volume: u32 },
    /// Write the mute switch of `device`, then call [`AudioState::complete_mute`].
    PushMute { device: Device, muted: bool },
    /// Scan the hardware, then call [`AudioState::complete_rescan`].
    Rescan,
}

/// Central audio state.
pub struct AudioState {
    max_volume: u32,
    backend: String,
    devices: Vec<Device>,
    streams: Vec<AudioStream>,
    default_output: Option<String>,
    default_input: Option<String>,
    mic_muted: bool,
    mic_gain: i32,
    profile: String,
}

impl AudioState {
    pub closed spec fn max_volume(&self) -> u32 {
        self.max_volume
    }

    pub closed spec fn backend(&self) -> Seq<char> {
        self.backend@
    }

    /// Devices in ascending id order.
    pub closed spec fn devices(&self) -> Seq<Device> {
        self.devices@
    }

    /// Streams in ascending id order.
    pub closed spec fn streams(&self) -> Seq<AudioStream> {
        self.streams@
    }

    pub closed spec fn default_output(&self) -> Option<String> {
        self.default_output
    }

    pub closed spec fn default_input(&self) -> Option<String> {
        self.default_input
    }

    pub closed spec fn mic_muted(&self) -> bool {
        self.mic_muted
    }

    pub closed spec fn mic_gain(&self) -> i32 {
        self.mic_gain
    }

    pub closed spec fn profile(&self) -> String {
        self.profile
    }

    /// The state's invariant: ids ascend; defaults name present devices of
    /// a fitting direction; the gain is in range; the profile is known.
    /// Registered streams name their device: none follows the default
    /// output (those that do are the data plane's live streams).
    pub open spec fn wf(&self) -> bool {
        &&& keys_sorted(self.devices())
        &&& keys_sorted(self.streams())
        &&& forall|i: int| 0 <= i < self.streams().len() ==> !(#[trigger] self.streams()[i]).follows_default
        &&& valid_default(self.devices(), self.default_output(), Direction::Input)
        &&& valid_default(self.devices(), self.default_input(), Direction::Output)
        &&& -30 <= self.mic_gain() <= 30
        &&& known_profile(self.profile()@)
    }

    /// Everything but the devices is as in `other`.
    pub open spec fn same_policy(&self, other: &AudioState) -> bool {
        &&& self.max_volume() == other.max_volume()
        &&& self.backend() == other.backend()
        &&& self.streams() == other.streams()
        &&& self.default_output() == other.default_output()
        &&& self.default_input() == other.default_input()
        &&& self.mic_muted() == other.mic_muted()
        &&& self.mic_gain() == other.mic_gain()
        &&& self.profile() == other.profile()
    }

    pub open spec fn unchanged(&self, other: &AudioState) -> bool {
        self.same_policy(other) && self.devices() == other.devices()
    }

    /// A fresh state: no devices yet, the "stereo" profile, and — for the
    /// demo backend — one demo playback stream on the speakers.
    pub fn new(config: &AudioConfig, backend_name: &str) -> (s: Self)
        ensures
            s.wf(),
            s.max_volume() == config.max_volume,
            s.backend() == backend_name@,
            s.devices().len() == 0,
            s.default_output() is None,
            s.default_input() is None,
            !s.mic_muted(),
            s.mic_gain() == 0,
            s.profile()@ == "stereo"@,
            backend_name@ == "demo"@ ==> s.streams().len() == 1 && s.streams()[0]@ == demo_stream(),
            backend_name@ != "demo"@ ==> s.streams().len() == 0,
    {
        let mut streams: Vec<AudioStream> = Vec::new();
        if str_eq(backend_name, "demo") {
            streams.push(AudioStream::new("s-1", "mitos-music", StreamKind::Playback, "speakers"));
        }
        let s = AudioState {
            max_volume: config.max_volume,
            backend: String::from_str(backend_name),
            devices: Vec::new(),
            streams,
            default_output: None,
            default_input: None,
            mic_muted: false,
            mic_gain: 0,
            profile: String::from_str("stereo"),
        };
        proof {
            assert(known_profiles()[0] == "stereo"@);
        }
        s
    }
}

/// Same ids and directions, position by position.
pub open spec fn same_shape(a: Seq<Device>, b: Seq<Device>) -> bool {
    a.len() == b.len() && forall|i: int| 0 <= i < a.len() ==> (#[trigger] a[i].id@ == b[i].id@ && a[i].direction == b[i].direction)
}

proof fn lemma_same_shape(a: Seq<Device>, b: Seq<Device>)
    requires
        same_shape(a, b),
    ensures
        keys_sorted(a) ==> keys_sorted(b),
        forall|o: Option<String>, x: Direction| valid_default(a, o, x) ==> #[trigger] valid_default(b, o, x),
        forall|k: Seq<char>| has_key(a, k) == #[trigger] has_key(b, k),
{
    if keys_sorted(a) {
        assert forall|i: int, j: int| 0 <= i < j < b.len() implies crate::text::lex_lt(#[trigger] b[i].key(), #[trigger] b[j].key()) by {
            assert(crate::text::lex_lt(a[i].key(), a[j].key()));
        }
    }
    assert forall|o: Option<String>, x: Direction| valid_default(a, o, x) implies #[trigger] valid_default(b, o, x) by {
        if let Some(id) = o {
            let i = choose|i: int| 0 <= i < a.len() && #[trigger] a[i].id@ == id@ && a[i].direction != x;
            assert(b[i].id@ == id@);
        }
    }
    assert forall|k: Seq<char>| has_key(a, k) == #[trigger] has_key(b, k) by {
        if has_key(a, k) {
            let i = choose|i: int| 0 <= i < a.len() && #[trigger] a[i].key() == k;
            assert(b[i].key() == k);
        }
        if has_key(b, k) {
            let i = choose|i: int| 0 <= i < b.len() && #[trigger] b[i].key() == k;
            assert(a[i].key() == k);
        }
    }
}

/// In a sorted sequence, the record found at `i` is the lookup of its key.
proof fn lemma_lookup_at<T: Keyed>(s: Seq<T>, i: int)
    requires
        keys_sorted(s),
        0 <= i < s.len(),
    ensures
        has_key(s, s[i].key()),
        index_of_key(s, s[i].key()) == i,
        lookup(s, s[i].key()) == Some(s[i]),
{
    lemma_key_map_at(s, i);
}

/// Device states after `id` becomes a default in place of `previous`:
/// the new default is active, the previous one available.
pub open spec fn restated(devs: Seq<Device>, id: Seq<char>, previous: Option<String>) -> Seq<Device> {
    Seq::new(
        devs.len(),
        |k: int|
            if devs[k].id@ == id {
                device_with_state(devs[k], DeviceState::Active)
            } else if previous matches Some(p) && devs[k].id@ == p@ {
                device_with_state(devs[k], DeviceState::Available)
            } else {
                devs[k]
            },
    )
}

/// Outcome of making `id` the default output (`SetDefaultOutput`).
pub open spec fn set_default_output_done(pre: AudioState, post: AudioState, id: String, o: Outcome) -> bool {
    match lookup(pre.devices(), id@) {
        None => post.unchanged(&pre) && o.result == Err::<Reply, AudioError>(AudioError::DeviceNotFound(id))
            && o.events@.len() == 0,
        Some(d) => if d.direction == Direction::Input {
            post.unchanged(&pre) && o.result == Err::<Reply, AudioError>(AudioError::NotAnOutput(id))
                && o.events@.len() == 0
        } else {
            &&& post.devices() == restated(pre.devices(), id@, pre.default_output())
            &&& post.default_output() == Some(id)
            &&& post.default_input() == pre.default_input()
            &&& post.max_volume() == pre.max_volume() && post.backend() == pre.backend()
            &&& post.streams() == pre.streams() && post.profile() == pre.profile()
            &&& post.mic_muted() == pre.mic_muted() && post.mic_gain() == pre.mic_gain()
            &&& o.result == Ok::<Reply, AudioError>(Reply::DefaultOutput { id })
            &&& o.events@ == seq![Event::DefaultOutputChanged { id }]
        },
    }
}

/// Outcome of making `id` the default input (`SetDefaultInput`).
pub open spec fn set_default_input_done(pre: AudioState, post: AudioState, id: String, o: Outcome) -> bool {
    match lookup(pre.devices(), id@) {
        None => post.unchanged(&pre) && o.result == Err::<Reply, AudioError>(AudioError::DeviceNotFound(id))
            && o.events@.len() == 0,
        Some(d) => if d.direction == Direction::Output {
            post.unchanged(&pre) && o.result == Err::<Reply, AudioError>(AudioError::NotAnInput(id))
                && o.events@.len() == 0
        } else {
            &&& post.devices() == restated(pre.devices(), id@, pre.default_input())
            &&& post.default_input() == Some(id)
            &&& post.default_output() == pre.default_output()
            &&& post.max_volume() == pre.max_volume() && post.backend() == pre.backend()
            &&& post.streams() == pre.streams() && post.profile() == pre.profile()
            &&& post.mic_muted() == pre.mic_muted() && post.mic_gain() == pre.mic_gain()
            &&& o.result == Ok::<Reply, AudioError>(Reply::DefaultInput { id })
            &&& o.events@ == seq![Event::DefaultInputChanged { id }]
        },
    }
}

/// A snapshot reports the state as it is.
pub open spec fn snapshot_of(s: AudioState, snap: Snapshot) -> bool {
    &&& snap.backend@ == s.backend()
    &&& same_views(snap.devices@, s.devices())
    &&& snap.streams@ == s.streams()
    &&& snap.default_output == s.default_output()
    &&& snap.default_input == s.default_input()
    &&& (snap.master_volume, snap.master_muted) == master_of(s.devices(), s.default_output())
    &&& snap.mic_muted == s.mic_muted()
    &&& snap.mic_gain == s.mic_gain()
    &&& snap.profile == s.profile()
}

fn clone_devices(v: &Vec<Device>) -> (r: Vec<Device>)
    ensures
        same_views(r@, v@),
{
    let mut r: Vec<Device> = Vec::new();
    let mut i: usize = 0;
    while i < v.len()
        invariant
            i <= v.len(),
            r@.len() == i,
            forall|k: int| 0 <= k < i ==> #[trigger] r@[k]@ == v@[k]@,
        decreases v.len() - i,
    {
        r.push(v[i].clone());
        i += 1;
    }
    r
}

fn clone_streams(v: &Vec<AudioStream>) -> (r: Vec<AudioStream>)
    ensures
        r@ == v@,
{
    let mut r: Vec<AudioStream> = Vec::new();
    let mut i: usize = 0;
    while i < v.len()
        invariant
            i <= v.len(),
            r@ == v@.take(i as int),
        decreases v.len() - i,
    {
        r.push(v[i].clone());
        i += 1;
        assert(r@ =~= v@.take(i as int));
    }
    assert(v@.take(i as int) =~= v@);
    r
}

fn clone_opt(o: &Option<String>) -> (r: Option<String>)
    ensures
        r == *o,
{
    match o {
        Some(s) => Some(s.clone()),
        None => None,
    }
}

impl AudioState {
    /// Set the state of the device at `i`.
    fn set_device_state(&mut self, i: usize, state: DeviceState)
        requires
            i < old(self).devices().len(),
        ensures
            final(self).devices() == old(self).devices().update(i as int, device_with_state(old(self).devices()[i as int], state)),
            final(self).same_policy(old(self)),
            same_shape(old(self).devices(), final(self).devices()),
    {
        let mut d = self.devices.remove(i);
        d.state = state;
        self.devices.insert(i, d);
        assert(self.devices@ =~= old(self).devices@.update(i as int, device_with_state(old(self).devices@[i as int], state)));
    }

    /// Master volume and mute.
    fn master(&self) -> (r: (u32, bool))
        requires
            self.wf(),
        ensures
            r == master_of(self.devices(), self.default_output()),
    {
        match &self.default_output {
            Some(id) => match position(&self.devices, id.as_str()) {
                Some(i) => {
                    proof {
                        lemma_lookup_at(self.devices@, i as int);
                    }
                    (self.devices[i].volume, self.devices[i].muted)
                },
                None => (0, false),
            },
            None => (0, false),
        }
    }

    /// Full snapshot (`GetState`).
    pub fn snapshot(&self) -> (snap: Snapshot)
        requires
            self.wf(),
        ensures
            snapshot_of(*self, snap),
    {
        let (master_volume, master_muted) = self.master();
        Snapshot {
            backend: self.backend.clone(),
            devices: clone_devices(&self.devices),
            streams: clone_streams(&self.streams),
            default_output: clone_opt(&self.default_output),
            default_input: clone_opt(&self.default_input),
            master_volume,
            master_muted,
            mic_muted: self.mic_muted,
            mic_gain: self.mic_gain,
            profile: self.profile.clone(),
        }
    }

    /// Devices in id order with the defaults (`ListDevices`).
    pub fn device_list(&self) -> (r: Reply)
        ensures
            r matches Reply::Devices { devices, default_output, default_input } && same_views(devices@, self.devices())
                && default_output == self.default_output() && default_input == self.default_input(),
    {
        Reply::Devices {
            devices: clone_devices(&self.devices),
            default_output: clone_opt(&self.default_output),
            default_input: clone_opt(&self.default_input),
        }
    }

    /// One device by id (`GetDevice`).
    pub fn get_device(&self, id: String) -> (r: Result<Reply, AudioError>)
        requires
            self.wf(),
        ensures
            match lookup(self.devices(), id@) {
                Some(d) => r matches Ok(Reply::Device(x)) && x@ == d@,
                None => r == Err::<Reply, AudioError>(AudioError::DeviceNotFound(id)),
            },
    {
        match position(&self.devices, id.as_str()) {
            Some(i) => {
                proof {
                    lemma_lookup_at(self.devices@, i as int);
                }
                Ok(Reply::Device(self.devices[i].clone()))
            },
            None => Err(AudioError::DeviceNotFound(id)),
        }
    }

    pub fn set_default_output(&mut self, id: String) -> (o: Outcome)
        requires
            old(self).wf(),
        ensures
            final(self).wf(),
            set_default_output_done(*old(self), *final(self), id, o),
    {
        let i = match position(&self.devices, id.as_str()) {
            Some(i) => i,
            None => {
                return Outcome { result: Err(AudioError::DeviceNotFound(id)), events: Vec::new() };
            },
        };
        proof {
            lemma_lookup_at(self.devices@, i as int);
        }
        if self.devices[i].direction == Direction::Input {
            return Outcome { result: Err(AudioError::NotAnOutput(id)), events: Vec::new() };
        }
        let ghost pre = *self;
        let previous = clone_opt(&self.default_output);
        self.default_output = Some(id.clone());
        let mut j_opt: Option<usize> = None;
        if let Some(old_id) = &previous {
            j_opt = position(&self.devices, old_id.as_str());
            if let Some(j) = j_opt {
                self.set_device_state(j, DeviceState::Available);
            }
        }
        self.set_device_state(i, DeviceState::Active);
        proof {
            let devs = pre.devices@;
            let want = restated(devs, id@, previous);
            assert forall|k: int| 0 <= k < devs.len() implies #[trigger] self.devices@[k] == want[k] by {
                if devs[k].id@ == id@ {
                    lemma_sorted_unique(devs, k, i as int);
                } else if previous matches Some(p) && devs[k].id@ == p@ {
                    assert(devs[k].key() == previous.unwrap()@);
                    assert(has_key(devs, previous.unwrap()@));
                    let j = j_opt.unwrap();
                    lemma_sorted_unique(devs, k, j as int);
                } else {
                    if let Some(j) = j_opt {
                        assert(k != j);
                    }
                }
            }
            assert(self.devices@ =~= want);
            lemma_same_shape(pre.devices@, self.devices@);
            assert(self.devices@[i as int].id@ == id@);
        }
        let mut events: Vec<Event> = Vec::new();
        events.push(Event::DefaultOutputChanged { id: id.clone() });
        Outcome { result: Ok(Reply::DefaultOutput { id }), events }
    }

    pub fn set_default_input(&mut self, id: String) -> (o: Outcome)
        requires
            old(self).wf(),
        ensures
            final(self).wf(),
            set_default_input_done(*old(self), *final(self), id, o),
    {
        let i = match position(&self.devices, id.as_str()) {
            Some(i) => i,
            None => {
                return Outcome { result: Err(AudioError::DeviceNotFound(id)), events: Vec::new() };
            },
        };
        proof {
            lemma_lookup_at(self.devices@, i as int);
        }
        if self.devices[i].direction == Direction::Output {
            return Outcome { result: Err(AudioError::NotAnInput(id)), events: Vec::new() };
        }
        let ghost pre = *self;
        let previous = clone_opt(&self.default_input);
        self.default_input = Some(id.clone());
        let mut j_opt: Option<usize> = None;
        if let Some(old_id) = &previous {
            j_opt = position(&self.devices, old_id.as_str());
            if let Some(j) = j_opt {
                self.set_device_state(j, DeviceState::Available);
            }
        }
        self.set_device_state(i, DeviceState::Active);
        proof {
            let devs = pre.devices@;
            let want = restated(devs, id@, previous);
            assert forall|k: int| 0 <= k < devs.len() implies #[trigger] self.devices@[k] == want[k] by {
                if devs[k].id@ == id@ {
                    lemma_sorted_unique(devs, k, i as int);
                } else if previous matches Some(p) && devs[k].id@ == p@ {
                    assert(devs[k].key() == previous.unwrap()@);
                    assert(has_key(devs, previous.unwrap()@));
                    let j = j_opt.unwrap();
                    lemma_sorted_unique(devs, k, j as int);
                } else {
                    if let Some(j) = j_opt {
                        assert(k != j);
                    }
                }
            }
            assert(self.devices@ =~= want);
            lemma_same_shape(pre.devices@, self.devices@);
            assert(self.devices@[i as int].id@ == id@);
        }
        let mut events: Vec<Event> = Vec::new();
        events.push(Event::DefaultInputChanged { id: id.clone() });
        Outcome { result: Ok(Reply::DefaultInput { id }), events }
    }
}

/// The `GetVolume` reply for a device.
pub open spec fn volume_reply(d: Device) -> Reply {
    Reply::Volume { device: d.id, volume: d.volume, muted: d.muted }
}

/// The device a volume/mute command is aimed at: the one named, else the
/// default output.
pub open spec fn aimed_at(named: Option<String>, default_output: Option<String>) -> Option<String> {
    match named {
        Some(id) => Some(id),
        None => default_output,
    }
}

/// The first step of `SetVolume`: validation, then the hardware write.
pub open spec fn set_volume_step(pre: AudioState, device: Option<String>, volume: u32, step: Step) -> bool {
    if volume > pre.max_volume() {
        step matches Step::Finished(o) && o.result == Err::<Reply, AudioError>(AudioError::InvalidVolume(volume)) && o.events@.len() == 0
    } else {
        match aimed_at(device, pre.default_output()) {
            None => step matches Step::Finished(o) && o.result == Err::<Reply, AudioError>(AudioError::NoOutput) && o.events@.len() == 0,
            Some(id) => match lookup(pre.devices(), id@) {
                None => step matches Step::Finished(o) && o.result == Err::<Reply, AudioError>(AudioError::DeviceNotFound(id))
                    && o.events@.len() == 0,
                Some(d) => step matches Step::PushVolume { device: x, volume: v } && x@ == d@ && v == volume,
            },
        }
    }
}

/// The first step of `Mute` / `Unmute`: the default output's mute switch.
pub open spec fn set_mute_step(pre: AudioState, muted: bool, step: Step) -> bool {
    match pre.default_output() {
        None => step matches Step::Finished(o) && o.result == Err::<Reply, AudioError>(AudioError::NoOutput) && o.events@.len() == 0,
        Some(id) => match lookup(pre.devices(), id@) {
            None => step matches Step::Finished(o) && o.result == Err::<Reply, AudioError>(AudioError::DeviceNotFound(id))
                && o.events@.len() == 0,
            Some(d) => step matches Step::PushMute { device: x, muted: m } && x@ == d@ && m == muted,
        },
    }
}

pub open spec fn device_with_volume(d: Device, volume: u32) -> Device {
    Device { volume, ..d }
}

pub open spec fn device_with_mute(d: Device, muted: bool) -> Device {
    Device { muted, ..d }
}

/// The devices with the one keyed `id` (if present) changed by `f`.
pub open spec fn update_keyed(devs: Seq<Device>, id: Seq<char>, f: spec_fn(Device) -> Device) -> Seq<Device> {
    if has_key(devs, id) {
        devs.update(index_of_key(devs, id), f(devs[index_of_key(devs, id)]))
    } else {
        devs
    }
}

/// A stream command on `stream_id`: missing stream, or the stream updated
/// to `updated`, with a `StreamChanged` event and the reply `reply`.
pub open spec fn stream_update_done(pre: AudioState, post: AudioState, stream_id: String, f: spec_fn(AudioStream) -> AudioStream, reply: Reply, o: Outcome) -> bool {
    if !has_key(pre.streams(), stream_id@) {
        post.unchanged(&pre) && o.result == Err::<Reply, AudioError>(AudioError::StreamNotFound(stream_id)) && o.events@.len() == 0
    } else {
        &&& post.streams() == pre.streams().update(index_of_key(pre.streams(), stream_id@),
            f(pre.streams()[index_of_key(pre.streams(), stream_id@)]))
        &&& post.devices() == pre.devices()
        &&& post.default_output() == pre.default_output() && post.default_input() == pre.default_input()
        &&& post.max_volume() == pre.max_volume() && post.backend() == pre.backend()
        &&& post.profile() == pre.profile()
        &&& post.mic_muted() == pre.mic_muted() && post.mic_gain() == pre.mic_gain()
        &&& o.result == Ok::<Reply, AudioError>(reply)
        &&& o.events@ == seq![Event::StreamChanged { id: stream_id }]
    }
}

/// Everything but the microphone settings is as in `other`.
pub open spec fn same_but_mic(post: AudioState, pre: AudioState) -> bool {
    &&& post.devices() == pre.devices() && post.streams() == pre.streams()
    &&& post.default_output() == pre.default_output() && post.default_input() == pre.default_input()
    &&& post.max_volume() == pre.max_volume() && post.backend() == pre.backend()
    &&& post.profile() == pre.profile()
}

impl AudioState {
    /// Volume and mute of one device, or of the master (`GetVolume`).
    pub fn get_volume(&self, device: Option<String>) -> (r: Result<Reply, AudioError>)
        requires
            self.wf(),
        ensures
            match aimed_at(device, self.default_output()) {
                None => r == Err::<Reply, AudioError>(AudioError::NoOutput),
                Some(id) => match lookup(self.devices(), id@) {
                    Some(d) => r == Ok::<Reply, AudioError>(volume_reply(d)),
                    None => r == Err::<Reply, AudioError>(AudioError::DeviceNotFound(id)) && device is Some,
                },
            },
    {
        let id = match device {
            Some(id) => id,
            None => match &self.default_output {
                Some(o) => o.clone(),
                None => {
                    return Err(AudioError::NoOutput);
                },
            },
        };
        match position(&self.devices, id.as_str()) {
            Some(i) => {
                proof {
                    lemma_lookup_at(self.devices@, i as int);
                }
                let d = &self.devices[i];
                Ok(Reply::Volume { device: d.id.clone(), volume: d.volume, muted: d.muted })
            },
            None => {
                proof {
                    if device is None {
                        let o = self.default_output.unwrap();
                        let k = choose|k: int| 0 <= k < self.devices@.len() && #[trigger] self.devices@[k].id@ == o@ && self.devices@[k].direction != Direction::Input;
                        assert(self.devices@[k].key() == id@);
                    }
                }
                Err(AudioError::DeviceNotFound(id))
            },
        }
    }

    /// First step of `SetVolume`.
    pub fn set_volume(&self, device: Option<String>, volume: u32) -> (st: Step)
        requires
            self.wf(),
        ensures
            set_volume_step(*self, device, volume, st),
    {
        if volume > self.max_volume {
            return Step::Finished(Outcome { result: Err(AudioError::InvalidVolume(volume)), events: Vec::new() });
        }
        let id = match device {
            Some(id) => id,
            None => match &self.default_output {
                Some(o) => o.clone(),
                None => {
                    return Step::Finished(Outcome { result: Err(AudioError::NoOutput), events: Vec::new() });
                },
            },
        };
        match position(&self.devices, id.as_str()) {
            Some(i) => {
                proof {
                    lemma_lookup_at(self.devices@, i as int);
                }
                Step::PushVolume { device: self.devices[i].clone(), volume }
            },
            None => Step::Finished(Outcome { result: Err(AudioError::DeviceNotFound(id)), events: Vec::new() }),
        }
    }

    /// Record a volume write on `device_id` (whether or not the hardware
    /// took it) and announce it.
    pub fn complete_volume(&mut self, device_id: String, volume: u32, hw_applied: bool) -> (o: Outcome)
        requires
            old(self).wf(),
        ensures
            final(self).wf(),
            final(self).same_policy(old(self)),
            final(self).devices() == update_keyed(old(self).devices(), device_id@,
                |d: Device| device_with_volume(d, volume)),
            o.result == Ok::<Reply, AudioError>(Reply::VolumeSet { device: device_id, volume, hw_applied }),
            o.events@ == seq![Event::VolumeChanged { device: Some(device_id), volume }],
    {
        let ghost pre = self.devices@;
        if let Some(i) = position(&self.devices, device_id.as_str()) {
            proof {
                lemma_lookup_at(self.devices@, i as int);
            }
            let mut d = self.devices.remove(i);
            d.volume = volume;
            self.devices.insert(i, d);
            proof {
                assert(self.devices@ =~= pre.update(i as int, device_with_volume(pre[i as int], volume)));
                assert(same_shape(pre, self.devices@));
                lemma_same_shape(pre, self.devices@);
            }
        }
        let mut events: Vec<Event> = Vec::new();
        events.push(Event::VolumeChanged { device: Some(device_id.clone()), volume });
        Outcome { result: Ok(Reply::VolumeSet { device: device_id, volume, hw_applied }), events }
    }

    /// First step of `Mute` / `Unmute`.
    pub fn set_master_muted(&self, muted: bool) -> (st: Step)
        requires
            self.wf(),
        ensures
            set_mute_step(*self, muted, st),
    {
        let id = match &self.default_output {
            Some(o) => o.clone(),
            None => {
                return Step::Finished(Outcome { result: Err(AudioError::NoOutput), events: Vec::new() });
            },
        };
        match position(&self.devices, id.as_str()) {
            Some(i) => {
                proof {
                    lemma_lookup_at(self.devices@, i as int);
                }
                Step::PushMute { device: self.devices[i].clone(), muted }
            },
            None => Step::Finished(Outcome { result: Err(AudioError::DeviceNotFound(id)), events: Vec::new() }),
        }
    }

    /// Record a mute write on `device_id` and announce it.
    pub fn complete_mute(&mut self, device_id: String, muted: bool, hw_applied: bool) -> (o: Outcome)
        requires
            old(self).wf(),
        ensures
            final(self).wf(),
            final(self).same_policy(old(self)),
            final(self).devices() == update_keyed(old(self).devices(), device_id@,
                |d: Device| device_with_mute(d, muted)),
            o.result == Ok::<Reply, AudioError>(Reply::MuteSet { device: device_id, muted, hw_applied }),
            o.events@ == seq![Event::MuteChanged { muted }],
    {
        let ghost pre = self.devices@;
        if let Some(i) = position(&self.devices, device_id.as_str()) {
            proof {
                lemma_lookup_at(self.devices@, i as int);
            }
            let mut d = self.devices.remove(i);
            d.muted = muted;
            self.devices.insert(i, d);
            proof {
                assert(self.devices@ =~= pre.update(i as int, device_with_mute(pre[i as int], muted)));
                assert(same_shape(pre, self.devices@));
                lemma_same_shape(pre, self.devices@);
            }
        }
        let mut events: Vec<Event> = Vec::new();
        events.push(Event::MuteChanged { muted });
        Outcome { result: Ok(Reply::MuteSet { device: device_id, muted, hw_applied }), events }
    }

    /// Streams in id order (`ListStreams`).
    pub fn stream_list(&self) -> (r: Reply)
        ensures
            r matches Reply::Streams { streams } && streams@ == self.streams(),
    {
        Reply::Streams { streams: clone_streams(&self.streams) }
    }

    /// Replace the stream at `i` by `s` (same id).
    fn replace_stream(&mut self, i: usize, s: AudioStream)
        requires
            old(self).wf(),
            i < old(self).streams().len(),
            s.id@ == old(self).streams()[i as int].id@,
            !s.follows_default,
        ensures
            final(self).wf(),
            final(self).streams() == old(self).streams().update(i as int, s),
            final(self).devices() == old(self).devices(),
            final(self).default_output() == old(self).default_output(),
            final(self).default_input() == old(self).default_input(),
            final(self).max_volume() == old(self).max_volume(),
            final(self).backend() == old(self).backend(),
            final(self).profile() == old(self).profile(),
            final(self).mic_muted() == old(self).mic_muted(),
            final(self).mic_gain() == old(self).mic_gain(),
    {
        let ghost pre = self.streams@;
        self.streams.set(i, s);
        proof {
            lemma_update_sorted(pre, i as int, s);
        }
    }

    pub fn set_stream_volume(&mut self, stream_id: String, volume: u32) -> (o: Outcome)
        requires
            old(self).wf(),
        ensures
            final(self).wf(),
            volume > old(self).max_volume() ==> final(self).unchanged(old(self))
                && o.result == Err::<Reply, AudioError>(AudioError::InvalidVolume(volume)) && o.events@.len() == 0,
            volume <= old(self).max_volume() ==> stream_update_done(*old(self), *final(self), stream_id,
                |st: AudioStream| stream_with_volume(st, volume),
                Reply::StreamVolume { stream_id, volume }, o),
    {
        if volume > self.max_volume {
            return Outcome { result: Err(AudioError::InvalidVolume(volume)), events: Vec::new() };
        }
        match position(&self.streams, stream_id.as_str()) {
            None => Outcome { result: Err(AudioError::StreamNotFound(stream_id)), events: Vec::new() },
            Some(i) => {
                proof {
                    lemma_lookup_at(self.streams@, i as int);
                }
                let mut st = self.streams[i].clone();
                st.volume = volume;
                self.replace_stream(i, st);
                let mut events: Vec<Event> = Vec::new();
                events.push(Event::StreamChanged { id: stream_id.clone() });
                Outcome { result: Ok(Reply::StreamVolume { stream_id, volume }), events }
            },
        }
    }

    pub fn set_stream_mute(&mut self, stream_id: String, mute: bool) -> (o: Outcome)
        requires
            old(self).wf(),
        ensures
            final(self).wf(),
            stream_update_done(*old(self), *final(self), stream_id,
                |st: AudioStream| stream_with_mute(st, mute),
                Reply::StreamMute { stream_id, muted: mute }, o),
    {
        match position(&self.streams, stream_id.as_str()) {
            None => Outcome { result: Err(AudioError::StreamNotFound(stream_id)), events: Vec::new() },
            Some(i) => {
                proof {
                    lemma_lookup_at(self.streams@, i as int);
                }
                let mut st = self.streams[i].clone();
                st.muted = mute;
                self.replace_stream(i, st);
                let mut events: Vec<Event> = Vec::new();
                events.push(Event::StreamChanged { id: stream_id.clone() });
                Outcome { result: Ok(Reply::StreamMute { stream_id, muted: mute }), events }
            },
        }
    }

    pub fn move_stream(&mut self, stream_id: String, device_id: String) -> (o: Outcome)
        requires
            old(self).wf(),
        ensures
            final(self).wf(),
            !has_key(old(self).devices(), device_id@) ==> final(self).unchanged(old(self))
                && o.result == Err::<Reply, AudioError>(AudioError::DeviceNotFound(device_id)) && o.events@.len() == 0,
            has_key(old(self).devices(), device_id@) ==> stream_update_done(*old(self), *final(self), stream_id,
                |st: AudioStream| stream_with_device(st, device_id),
                Reply::StreamMoved { stream_id, device: device_id }, o),
    {
        if position(&self.devices, device_id.as_str()).is_none() {
            return Outcome { result: Err(AudioError::DeviceNotFound(device_id)), events: Vec::new() };
        }
        match position(&self.streams, stream_id.as_str()) {
            None => Outcome { result: Err(AudioError::StreamNotFound(stream_id)), events: Vec::new() },
            Some(i) => {
                proof {
                    lemma_lookup_at(self.streams@, i as int);
                }
                let mut st = self.streams[i].clone();
                st.device = device_id.clone();
                st.follows_default = false;
                self.replace_stream(i, st);
                let mut events: Vec<Event> = Vec::new();
                events.push(Event::StreamChanged { id: stream_id.clone() });
                Outcome { result: Ok(Reply::StreamMoved { stream_id, device: device_id }), events }
            },
        }
    }

    /// Known profiles and the active one (`ListProfiles`).
    pub fn profile_list(&self) -> (r: Reply)
        ensures
            r matches Reply::Profiles { profiles, active } && profiles.deep_view() == known_profiles()
                && active == self.profile(),
    {
        Reply::Profiles { profiles: known_profile_list(), active: self.profile.clone() }
    }

    pub fn set_profile(&mut self, profile: String) -> (o: Outcome)
        requires
            old(self).wf(),
        ensures
            final(self).wf(),
            !known_profile(profile@) ==> final(self).unchanged(old(self))
                && o.result == Err::<Reply, AudioError>(AudioError::InvalidProfile(profile)) && o.events@.len() == 0,
            known_profile(profile@) ==> {
                &&& final(self).profile() == profile
                &&& final(self).devices() == old(self).devices() && final(self).streams() == old(self).streams()
                &&& final(self).default_output() == old(self).default_output()
                &&& final(self).default_input() == old(self).default_input()
                &&& final(self).max_volume() == old(self).max_volume() && final(self).backend() == old(self).backend()
                &&& final(self).mic_muted() == old(self).mic_muted() && final(self).mic_gain() == old(self).mic_gain()
                &&& o.result == Ok::<Reply, AudioError>(Reply::Profile { profile })
                &&& o.events@ == seq![Event::ProfileChanged { profile }]
            },
    {
        if !is_known_profile(profile.as_str()) {
            return Outcome { result: Err(AudioError::InvalidProfile(profile)), events: Vec::new() };
        }
        self.profile = profile.clone();
        let mut events: Vec<Event> = Vec::new();
        events.push(Event::ProfileChanged { profile: profile.clone() });
        Outcome { result: Ok(Reply::Profile { profile }), events }
    }

    /// The default input device with the microphone settings (`GetMicrophone`).
    pub fn microphone(&self) -> (r: Reply)
        requires
            self.wf(),
        ensures
            r matches Reply::Microphone { device, muted, gain_db } && same_lookup(device, self.devices(), self.default_input())
                && muted == self.mic_muted() && gain_db == self.mic_gain(),
    {
        let device = match &self.default_input {
            Some(id) => match position(&self.devices, id.as_str()) {
                Some(i) => {
                    proof {
                        lemma_lookup_at(self.devices@, i as int);
                    }
                    Some(self.devices[i].clone())
                },
                None => None,
            },
            None => None,
        };
        Reply::Microphone { device, muted: self.mic_muted, gain_db: self.mic_gain }
    }

    /// Set the microphone gain, clamped to ±30 dB (`SetMicrophoneGain`).
    pub fn set_microphone_gain(&mut self, gain: i32) -> (o: Outcome)
        requires
            old(self).wf(),
        ensures
            final(self).wf(),
            same_but_mic(*final(self), *old(self)),
            final(self).mic_gain() == clamp_gain(gain),
            final(self).mic_muted() == old(self).mic_muted(),
            o.result == Ok::<Reply, AudioError>(Reply::MicrophoneGain { gain_db: clamp_gain(gain) }),
            o.events@ == seq![Event::MicrophoneChanged { muted: old(self).mic_muted(), gain: clamp_gain(gain) }],
    {
        let clamped: i32 = if gain < -30 {
            -30
        } else if gain > 30 {
            30
        } else {
            gain
        };
        self.mic_gain = clamped;
        let mut events: Vec<Event> = Vec::new();
        events.push(Event::MicrophoneChanged { muted: self.mic_muted, gain: clamped });
        Outcome { result: Ok(Reply::MicrophoneGain { gain_db: clamped }), events }
    }

    pub fn mute_microphone(&mut self, mute: bool) -> (o: Outcome)
        requires
            old(self).wf(),
        ensures
            final(self).wf(),
            same_but_mic(*final(self), *old(self)),
            final(self).mic_muted() == mute,
            final(self).mic_gain() == old(self).mic_gain(),
            o.result == Ok::<Reply, AudioError>(Reply::MicrophoneMuted { muted: mute }),
            o.events@ == seq![Event::MicrophoneChanged { muted: mute, gain: old(self).mic_gain() }],
    {
        self.mic_muted = mute;
        let mut events: Vec<Event> = Vec::new();
        events.push(Event::MicrophoneChanged { muted: mute, gain: self.mic_gain });
        Outcome { result: Ok(Reply::MicrophoneMuted { muted: mute }), events }
    }

    /// Master volume and mute (`GetLevels`).
    pub fn levels(&self) -> (r: Reply)
        requires
            self.wf(),
        ensures
            r == (Reply::Levels {
                master_volume: master_of(self.devices(), self.default_output()).0,
                muted: master_of(self.devices(), self.default_output()).1,
            }),
    {
        let (master_volume, muted) = self.master();
        Reply::Levels { master_volume, muted }
    }
}

/// The registry a scan leads to (before device states are set): vanished
/// devices dropped, then the scanned ones taken in, in scan order.
pub open spec fn scan_registry(pre: Seq<Device>, scanned: Seq<Device>) -> Map<Seq<char>, DeviceView> {
    merged_from(retained(key_map(pre), scanned), scanned, 0)
}

/// The default a refresh settles on: the previous one if it is still
/// present with a fitting direction, else the preferred device.
pub open spec fn settled_default(previous: Option<String>, reg: Map<Seq<char>, DeviceView>, devs: Seq<Device>, for_output: bool) -> Option<Seq<char>> {
    let excluded = if for_output { Direction::Input } else { Direction::Output };
    if previous matches Some(o) && reg.contains_key(o@) && reg[o@].direction != excluded {
        opt_view(previous)
    } else {
        preferred(devs, for_output)
    }
}

/// The event announcing a new default, when there is one.
pub open spec fn default_event(previous: Option<String>, now: Option<String>, for_output: bool) -> Seq<Event> {
    if opt_view(now) != opt_view(previous) && now is Some {
        if for_output {
            seq![Event::DefaultOutputChanged { id: now.unwrap() }]
        } else {
            seq![Event::DefaultInputChanged { id: now.unwrap() }]
        }
    } else {
        Seq::empty()
    }
}

/// The registry as a map, with each device's state set from the defaults.
pub open spec fn with_states(reg: Map<Seq<char>, DeviceView>, out: Option<String>, inp: Option<String>) -> Map<Seq<char>, DeviceView> {
    Map::new(|k: Seq<char>| reg.contains_key(k), |k: Seq<char>| reg[k].with_state(state_for(k, out, inp)))
}

/// What a refresh with `scanned` does to the state, and the events it emits.
pub open spec fn refresh_done(pre: AudioState, post: AudioState, scanned: Seq<Device>, events: Seq<Event>) -> bool {
    let reg = scan_registry(pre.devices(), scanned);
    &&& key_map(post.devices()) == with_states(reg, post.default_output(), post.default_input())
    &&& opt_view(post.default_output()) == settled_default(pre.default_output(), reg, post.devices(), true)
    &&& opt_view(post.default_input()) == settled_default(pre.default_input(), reg, post.devices(), false)
    &&& opt_view(post.default_output()) == opt_view(pre.default_output()) ==> post.default_output() == pre.default_output()
    &&& opt_view(post.default_input()) == opt_view(pre.default_input()) ==> post.default_input() == pre.default_input()
    &&& events == removal_events(pre.devices(), scanned, pre.devices().len() as int)
        + merge_events_from(retained(key_map(pre.devices()), scanned), scanned, 0)
        + default_event(pre.default_output(), post.default_output(), true)
        + default_event(pre.default_input(), post.default_input(), false)
    &&& post.streams() == pre.streams() && post.profile() == pre.profile()
    &&& post.mic_muted() == pre.mic_muted() && post.mic_gain() == pre.mic_gain()
    &&& post.max_volume() == pre.max_volume() && post.backend() == pre.backend()
}

/// Device states do not change which device is preferred.
pub proof fn lemma_preferred_ignores_state(a: Seq<Device>, b: Seq<Device>, for_output: bool)
    requires
        a.len() == b.len(),
        forall|k: int| #![trigger a[k]] #![trigger b[k]] 0 <= k < a.len() ==> a[k].id@ == b[k].id@ && a[k].kind == b[k].kind && a[k].direction == b[k].direction,
    ensures
        preferred(a, for_output) == preferred(b, for_output),
{
    assert forall|x: int| ranks_first(a, x, for_output) <==> #[trigger] ranks_first(b, x, for_output) by {
        if ranks_first(a, x, for_output) {
            assert forall|j: int| 0 <= j < b.len() && #[trigger] crate::manager::reconcile::eligible(b[j], for_output) implies {
                ||| crate::manager::reconcile::pick_rank(b[x].kind, for_output) < crate::manager::reconcile::pick_rank(b[j].kind, for_output)
                ||| crate::manager::reconcile::pick_rank(b[x].kind, for_output) == crate::manager::reconcile::pick_rank(b[j].kind, for_output)
                    && (j == x || crate::text::lex_lt(b[x].id@, b[j].id@))
            } by {
                assert(a[j].kind == b[j].kind && a[j].direction == b[j].direction && a[j].id@ == b[j].id@);
                assert(crate::manager::reconcile::eligible(a[j], for_output));
            }
        }
        if ranks_first(b, x, for_output) {
            assert forall|j: int| 0 <= j < a.len() && #[trigger] crate::manager::reconcile::eligible(a[j], for_output) implies {
                ||| crate::manager::reconcile::pick_rank(a[x].kind, for_output) < crate::manager::reconcile::pick_rank(a[j].kind, for_output)
                ||| crate::manager::reconcile::pick_rank(a[x].kind, for_output) == crate::manager::reconcile::pick_rank(a[j].kind, for_output)
                    && (j == x || crate::text::lex_lt(a[x].id@, a[j].id@))
            } by {
                assert(a[j].kind == b[j].kind && a[j].direction == b[j].direction && a[j].id@ == b[j].id@);
                assert(crate::manager::reconcile::eligible(b[j], for_output));
            }
        }
    }
    if exists|x: int| ranks_first(a, x, for_output) {
        let x = choose|x: int| ranks_first(a, x, for_output);
        assert(ranks_first(b, x, for_output));
        let y = choose|y: int| ranks_first(b, y, for_output);
        lemma_ranks_first_unique(b, x, y, for_output);
    }
}

fn push_all(dst: &mut Vec<Event>, src: Vec<Event>)
    ensures
        final(dst)@ == old(dst)@ + src@,
{
    let mut src = src;
    let ghost orig = src@;
    let ghost start = dst@;
    while src.len() > 0
        invariant
            dst@ + src@ == start + orig,
        decreases src@.len(),
    {
        let e = src.remove(0);
        let ghost rest = src@;
        dst.push(e);
        proof {
            assert(dst@ + src@ =~= start + orig);
        }
    }
    assert(dst@ =~= start + orig);
}

/// A default that names a device of `a` names the same device in `b`,
/// when the two differ only in device states.
proof fn lemma_valid_default_states(a: Seq<Device>, b: Seq<Device>, o: Option<String>, excluded: Direction)
    requires
        valid_default(a, o, excluded),
        a.len() == b.len(),
        forall|k: int| #![trigger a[k]] #![trigger b[k]] 0 <= k < a.len() ==> a[k].id == b[k].id && a[k].direction == b[k].direction,
    ensures
        valid_default(b, o, excluded),
{
    if let Some(id) = o {
        let i = choose|i: int| 0 <= i < a.len() && #[trigger] a[i].id@ == id@ && a[i].direction != excluded;
        assert(b[i].id@ == id@);
    }
}

/// The default a refresh settles on (see [`settled_default`]).
fn settle(cur: &Vec<Device>, current: &Option<String>, for_output: bool) -> (r: Option<String>)
    requires
        keys_sorted(cur@),
    ensures
        opt_view(r) == settled_default(*current, key_map(cur@), cur@, for_output),
        opt_view(r) == opt_view(*current) ==> r == *current,
        valid_default(cur@, r, if for_output { Direction::Input } else { Direction::Output }),
{
    let excluded = if for_output {
        Direction::Input
    } else {
        Direction::Output
    };
    let keep = match current {
        Some(o) => match position(cur, o.as_str()) {
            Some(i) => {
                proof {
                    lemma_key_map_at(cur@, i as int);
                }
                cur[i].direction != excluded
            },
            None => false,
        },
        None => false,
    };
    if keep {
        proof {
            let o = current.unwrap();
            let i = index_of_key(cur@, o@);
            assert(cur@[i].id@ == o@);
        }
        clone_opt(current)
    } else {
        let r = pick_default(cur, for_output);
        proof {
            if r is Some {
                let o = r.unwrap();
                let x = choose|x: int| ranks_first(cur@, x, for_output);
                assert(cur@[x].id@ == o@);
                if opt_view(r) == opt_view(*current) {
                    let c = current.unwrap();
                    assert(cur@[x].key() == c@);
                    assert(has_key(cur@, c@));
                    lemma_key_map_at(cur@, x);
                    assert(false);
                }
            }
        }
        r
    }
}

impl AudioState {
    /// Reconcile the registry with a hardware scan: drop vanished devices,
    /// add new ones, replace changed ones, keep the defaults valid (picking
    /// new ones where needed) and mark the defaults active.
    pub fn refresh(&mut self, scanned: Vec<Device>) -> (events: Vec<Event>)
        requires
            old(self).wf(),
        ensures
            final(self).wf(),
            refresh_done(*old(self), *final(self), scanned@, events@),
    {
        let ghost pre = *self;
        let (mut cur, mut events) = retain_scanned(&self.devices, &scanned);
        let added = merge_scan(&mut cur, &scanned);
        push_all(&mut events, added);
        let ghost reg = key_map(cur@);
        let ghost cur0 = cur@;
        assert(reg == scan_registry(pre.devices(), scanned@));

        // Keep defaults valid (and pick initial ones).
        let output = settle(&cur, &self.default_output, true);
        let ghost before = events@;
        if !opt_strings_equal(&output, &self.default_output) {
            if let Some(id) = &output {
                events.push(Event::DefaultOutputChanged { id: id.clone() });
            }
            self.default_output = output;
        }
        assert(events@ == before + default_event(pre.default_output, self.default_output, true));
        let input = settle(&cur, &self.default_input, false);
        let ghost before = events@;
        if !opt_strings_equal(&input, &self.default_input) {
            if let Some(id) = &input {
                events.push(Event::DefaultInputChanged { id: id.clone() });
            }
            self.default_input = input;
        }
        assert(events@ == before + default_event(pre.default_input, self.default_input, false));

        // Device states: defaults are "active".
        mark_states(&mut cur, &self.default_output, &self.default_input);
        self.devices = cur;
        proof {
            let post = self.devices@;
            assert forall|k: int| #![trigger post[k]] #![trigger cur0[k]] 0 <= k < post.len() implies post[k].id == cur0[k].id && post[k].kind == cur0[k].kind
                && post[k].direction == cur0[k].direction by {}
            lemma_preferred_ignores_state(cur0, post, true);
            lemma_preferred_ignores_state(cur0, post, false);
            // the registry with states
            let a = key_map(post);
            let b = with_states(reg, self.default_output, self.default_input);
            assert forall|k: Seq<char>| #[trigger] a.contains_key(k) == b.contains_key(k) by {
                if has_key(post, k) {
                    let i = choose|i: int| 0 <= i < post.len() && #[trigger] post[i].key() == k;
                    assert(cur0[i].key() == k);
                }
                if has_key(cur0, k) {
                    let i = choose|i: int| 0 <= i < cur0.len() && #[trigger] cur0[i].key() == k;
                    assert(post[i].key() == k);
                }
            }
            assert forall|k: Seq<char>| #[trigger] a.contains_key(k) implies a[k] == b[k] by {
                let i = choose|i: int| 0 <= i < post.len() && #[trigger] post[i].key() == k;
                lemma_key_map_at(post, i);
                lemma_key_map_at(cur0, i);
            }
            assert(a =~= b);
            lemma_valid_default_states(cur0, post, self.default_output, Direction::Input);
            lemma_valid_default_states(cur0, post, self.default_input, Direction::Output);
        }
        events
    }
}

/// A finished step with no state change, no events and result `r`.
pub open spec fn answered(st: Step, r: Result<Reply, AudioError>) -> bool {
    st matches Step::Finished(o) && o.result == r && o.events@.len() == 0
}

/// What [`AudioState::handle`] does with each command.
pub open spec fn handled(pre: AudioState, post: AudioState, command: Command, st: Step) -> bool {
    match command {
        Command::Ping => post.unchanged(&pre) && answered(st, Ok(Reply::Pong)),
        Command::GetState => post.unchanged(&pre) && (st matches Step::Finished(o) && o.events@.len() == 0
            && (o.result matches Ok(Reply::State(snap)) && snapshot_of(pre, snap))),
        Command::GetDefaults => post.unchanged(&pre) && answered(st, Ok(Reply::Defaults {
            default_output: pre.default_output(),
            default_input: pre.default_input(),
        })),
        Command::ListDevices => post.unchanged(&pre) && (st matches Step::Finished(o) && o.events@.len() == 0
            && (o.result matches Ok(Reply::Devices { devices, default_output, default_input })
            && same_views(devices@, pre.devices()) && default_output == pre.default_output()
            && default_input == pre.default_input())),
        Command::GetDevice { id } => post.unchanged(&pre) && (st matches Step::Finished(o) && o.events@.len() == 0
            && match lookup(pre.devices(), id@) {
                Some(d) => o.result matches Ok(Reply::Device(x)) && x@ == d@,
                None => o.result == Err::<Reply, AudioError>(AudioError::DeviceNotFound(id)),
            }),
        Command::SetDefaultOutput { id } => st matches Step::Finished(o) && set_default_output_done(pre, post, id, o),
        Command::SetDefaultInput { id } => st matches Step::Finished(o) && set_default_input_done(pre, post, id, o),
        Command::GetVolume { device } => post.unchanged(&pre) && (st matches Step::Finished(o) && o.events@.len() == 0
            && match aimed_at(device, pre.default_output()) {
                None => o.result == Err::<Reply, AudioError>(AudioError::NoOutput),
                Some(id) => match lookup(pre.devices(), id@) {
                    Some(d) => o.result == Ok::<Reply, AudioError>(volume_reply(d)),
                    None => o.result == Err::<Reply, AudioError>(AudioError::DeviceNotFound(id)),
                },
            }),
        Command::SetVolume { device, volume } => post.unchanged(&pre) && set_volume_step(pre, device, volume, st),
        Command::Mute => post.unchanged(&pre) && set_mute_step(pre, true, st),
        Command::Unmute => post.unchanged(&pre) && set_mute_step(pre, false, st),
        Command::ListStreams => post.unchanged(&pre) && (st matches Step::Finished(o) && o.events@.len() == 0
            && (o.result matches Ok(Reply::Streams { streams }) && streams@ == pre.streams())),
        Command::SetStreamVolume { stream_id, volume } => st matches Step::Finished(o) && if volume > pre.max_volume() {
            post.unchanged(&pre) && o.result == Err::<Reply, AudioError>(AudioError::InvalidVolume(volume)) && o.events@.len() == 0
        } else {
            stream_update_done(pre, post, stream_id, |x: AudioStream| stream_with_volume(x, volume),
                Reply::StreamVolume { stream_id, volume }, o)
        },
        Command::SetStreamMute { stream_id, mute } => st matches Step::Finished(o) && stream_update_done(pre, post,
            stream_id, |x: AudioStream| stream_with_mute(x, mute), Reply::StreamMute { stream_id, muted: mute }, o),
        Command::MoveStream { stream_id, device_id } => st matches Step::Finished(o) && if !has_key(pre.devices(), device_id@) {
            post.unchanged(&pre) && o.result == Err::<Reply, AudioError>(AudioError::DeviceNotFound(device_id)) && o.events@.len() == 0
        } else {
            stream_update_done(pre, post, stream_id, |x: AudioStream| stream_with_device(x, device_id),
                Reply::StreamMoved { stream_id, device: device_id }, o)
        },
        Command::ListProfiles => post.unchanged(&pre) && (st matches Step::Finished(o) && o.events@.len() == 0
            && (o.result matches Ok(Reply::Profiles { profiles, active }) && profiles.deep_view() == known_profiles()
            && active == pre.profile())),
        Command::SetProfile { profile } => st matches Step::Finished(o) && if !known_profile(profile@) {
            post.unchanged(&pre) && o.result == Err::<Reply, AudioError>(AudioError::InvalidProfile(profile)) && o.events@.len() == 0
        } else {
            &&& post.profile() == profile
            &&& post.devices() == pre.devices() && post.streams() == pre.streams()
            &&& post.default_output() == pre.default_output() && post.default_input() == pre.default_input()
            &&& post.max_volume() == pre.max_volume() && post.backend() == pre.backend()
            &&& post.mic_muted() == pre.mic_muted() && post.mic_gain() == pre.mic_gain()
            &&& o.result == Ok::<Reply, AudioError>(Reply::Profile { profile })
            &&& o.events@ == seq![Event::ProfileChanged { profile }]
        },
        Command::GetMicrophone => post.unchanged(&pre) && (st matches Step::Finished(o) && o.events@.len() == 0
            && (o.result matches Ok(Reply::Microphone { device, muted, gain_db })
            && same_lookup(device, pre.devices(), pre.default_input()) && muted == pre.mic_muted() && gain_db == pre.mic_gain())),
        Command::SetMicrophoneGain { gain } => st matches Step::Finished(o) && {
            &&& same_but_mic(post, pre)
            &&& post.mic_gain() == clamp_gain(gain) && post.mic_muted() == pre.mic_muted()
            &&& o.result == Ok::<Reply, AudioError>(Reply::MicrophoneGain { gain_db: clamp_gain(gain) })
            &&& o.events@ == seq![Event::MicrophoneChanged { muted: pre.mic_muted(), gain: clamp_gain(gain) }]
        },
        Command::MuteMicrophone { mute } => st matches Step::Finished(o) && {
            &&& same_but_mic(post, pre)
            &&& post.mic_muted() == mute && post.mic_gain() == pre.mic_gain()
            &&& o.result == Ok::<Reply, AudioError>(Reply::MicrophoneMuted { muted: mute })
            &&& o.events@ == seq![Event::MicrophoneChanged { muted: mute, gain: pre.mic_gain() }]
        },
        Command::GetLevels => post.unchanged(&pre) && answered(st, Ok(Reply::Levels {
            master_volume: master_of(pre.devices(), pre.default_output()).0,
            muted: master_of(pre.devices(), pre.default_output()).1,
        })),
        Command::Rescan => post.unchanged(&pre) && st is Rescan,
        Command::SubscribeEvents => post.unchanged(&pre) && answered(st, Ok(Reply::Subscribed)),
    }
}

fn reply(result: Result<Reply, AudioError>) -> (st: Step)
    ensures
        answered(st, result),
{
    Step::Finished(Outcome { result, events: Vec::new() })
}

impl AudioState {
    /// Decide a command: answer it, change the state, or name the hardware
    /// work it needs first.
    pub fn handle(&mut self, command: Command) -> (st: Step)
        requires
            old(self).wf(),
        ensures
            final(self).wf(),
            handled(*old(self), *final(self), command, st),
    {
        match command {
            Command::Ping => reply(Ok(Reply::Pong)),
            Command::GetState => reply(Ok(Reply::State(self.snapshot()))),
            Command::GetDefaults => reply(Ok(Reply::Defaults {
                default_output: clone_opt(&self.default_output),
                default_input: clone_opt(&self.default_input),
            })),
            Command::ListDevices => reply(Ok(self.device_list())),
            Command::GetDevice { id } => reply(self.get_device(id)),
            Command::SetDefaultOutput { id } => Step::Finished(self.set_default_output(id)),
            Command::SetDefaultInput { id } => Step::Finished(self.set_default_input(id)),
            Command::GetVolume { device } => reply(self.get_volume(device)),
            Command::SetVolume { device, volume } => self.set_volume(device, volume),
            Command::Mute => self.set_master_muted(true),
            Command::Unmute => self.set_master_muted(false),
            Command::ListStreams => reply(Ok(self.stream_list())),
            Command::SetStreamVolume { stream_id, volume } => Step::Finished(self.set_stream_volume(stream_id, volume)),
            Command::SetStreamMute { stream_id, mute } => Step::Finished(self.set_stream_mute(stream_id, mute)),
            Command::MoveStream { stream_id, device_id } => Step::Finished(self.move_stream(stream_id, device_id)),
            Command::ListProfiles => reply(Ok(self.profile_list())),
            Command::SetProfile { profile } => Step::Finished(self.set_profile(profile)),
            Command::GetMicrophone => reply(Ok(self.microphone())),
            Command::SetMicrophoneGain { gain } => Step::Finished(self.set_microphone_gain(gain)),
            Command::MuteMicrophone { mute } => Step::Finished(self.mute_microphone(mute)),
            Command::GetLevels => reply(Ok(self.levels())),
            Command::Rescan => Step::Rescan,
            // Normally intercepted by the connection handler (needs the socket).
            Command::SubscribeEvents => reply(Ok(Reply::Subscribed)),
        }
    }

    /// Finish `Rescan` with the scan's result: reconcile, then report the
    /// device list.
    pub fn complete_rescan(&mut self, scanned: Vec<Device>) -> (o: Outcome)
        requires
            old(self).wf(),
        ensures
            final(self).wf(),
            refresh_done(*old(self), *final(self), scanned@, o.events@),
            o.result matches Ok(Reply::Devices { devices, default_output, default_input })
                && same_views(devices@, final(self).devices()) && default_output == final(self).default_output()
                && default_input == final(self).default_input(),
    {
        let events = self.refresh(scanned);
        Outcome { result: Ok(self.device_list()), events }
    }
}

} // verus!
