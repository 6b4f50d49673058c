use vstd::prelude::*;

verus! {

/// Physical or virtual audio device classes known to the system.
#[derive(Debug, Clone, Copy, PartialEq, Eq, Structural)]
pub enum DeviceKind {
    Speakers,
    Headphones,
    Headset,
    Hdmi,
    DisplayPort,
    Usb,
    Bluetooth,
    Microphone,
    Virtual,
}

#[derive(Debug, Clone, Copy, PartialEq, Eq, Structural)]
pub enum Direction {
    Input,
    Output,
    Both,
}

#[derive(Debug, Clone, Copy, PartialEq, Eq, Structural)]
pub enum DeviceState {
    Disconnected,
    Available,
    Active,
    Suspended,
    Unavailable,
    Error,
}

#[derive(Debug, Clone, Copy, PartialEq, Eq, Structural)]
pub enum Bus {
    Internal,
    Usb,
    Bluetooth,
    Hdmi,
    Virtual,
}

pub struct Device {
    pub id: String,
    pub name: String,
    pub description: String,
    pub kind: DeviceKind,
    pub direction: Direction,
    pub bus: Bus,
    pub state: DeviceState,
    pub profiles: Vec<String>,
    pub active_profile: Option<String>,
    pub channels: u32,
    pub sample_rates: Vec<u32>,
    pub volume: u32,
    pub muted: bool,
    /// ALSA device identifier (e.g. "hw:0,0") — filled by the backend.
    pub alsa: Option<String>,
}

/// Lower-case name of a device kind, as rule conditions see it.
pub open spec fn kind_name(k: DeviceKind) -> Seq<char> {
    match k {
        DeviceKind::Speakers => "speakers"@,
        DeviceKind::Headphones => "headphones"@,
        DeviceKind::Headset => "headset"@,
        DeviceKind::Hdmi => "hdmi"@,
        DeviceKind::DisplayPort => "displayport"@,
        DeviceKind::Usb => "usb"@,
        DeviceKind::Bluetooth => "bluetooth"@,
        DeviceKind::Microphone => "microphone"@,
        DeviceKind::Virtual => "virtual"@,
    }
}

/// Lower-case name of a bus, as rule conditions see it.
pub open spec fn bus_name(b: Bus) -> Seq<char> {
    match b {
        Bus::Internal => "internal"@,
        Bus::Usb => "usb"@,
        Bus::Bluetooth => "bluetooth"@,
        Bus::Hdmi => "hdmi"@,
        Bus::Virtual => "virtual"@,
    }
}

/// A kind condition is matched against the lower-cased variant name of the
/// device's kind, and no two kinds share a name.
pub proof fn law_kind_names()
    ensures
        kind_name(DeviceKind::Speakers) == "speakers"@,
        kind_name(DeviceKind::Headphones) == "headphones"@,
        kind_name(DeviceKind::Headset) == "headset"@,
        kind_name(DeviceKind::Hdmi) == "hdmi"@,
        kind_name(DeviceKind::DisplayPort) == "displayport"@,
        kind_name(DeviceKind::Usb) == "usb"@,
        kind_name(DeviceKind::Bluetooth) == "bluetooth"@,
        kind_name(DeviceKind::Microphone) == "microphone"@,
        kind_name(DeviceKind::Virtual) == "virtual"@,
        forall|a: DeviceKind, b: DeviceKind| a != b ==> #[trigger] kind_name(a) != #[trigger] kind_name(b),
{
    reveal_strlit("speakers");
    reveal_strlit("headphones");
    reveal_strlit("headset");
    reveal_strlit("hdmi");
    reveal_strlit("displayport");
    reveal_strlit("usb");
    reveal_strlit("bluetooth");
    reveal_strlit("microphone");
    reveal_strlit("virtual");
    assert forall|a: DeviceKind, b: DeviceKind| a != b implies #[trigger] kind_name(a) != #[trigger] kind_name(b) by {
        let (x, y) = (kind_name(a), kind_name(b));
        if x.len() == y.len() {
            if x[0] == y[0] {
                assert(x[1] != y[1] || x[2] != y[2] || x[3] != y[3]);
            }
        }
    }
}

impl DeviceKind {
    /// Lower-case name of the kind (`"speakers"`, `"displayport"`, …).
    pub fn name(&self) -> (r: &'static str)
        ensures
            r@ == kind_name(*self),
    {
        match self {
            DeviceKind::Speakers => "speakers",
            DeviceKind::Headphones => "headphones",
            DeviceKind::Headset => "headset",
            DeviceKind::Hdmi => "hdmi",
            DeviceKind::DisplayPort => "displayport",
            DeviceKind::Usb => "usb",
            DeviceKind::Bluetooth => "bluetooth",
            DeviceKind::Microphone => "microphone",
            DeviceKind::Virtual => "virtual",
        }
    }
}

impl Bus {
    /// Lower-case name of the bus (`"internal"`, `"usb"`, …).
    pub fn name(&self) -> (r: &'static str)
        ensures
            r@ == bus_name(*self),
    {
        match self {
            Bus::Internal => "internal",
            Bus::Usb => "usb",
            Bus::Bluetooth => "bluetooth",
            Bus::Hdmi => "hdmi",
            Bus::Virtual => "virtual",
        }
    }
}

/// The mathematical value of a [`Device`]: its fields, strings as
/// character sequences.
pub struct DeviceView {
    pub id: Seq<char>,
    pub name: Seq<char>,
    pub description: Seq<char>,
    pub kind: DeviceKind,
    pub direction: Direction,
    pub bus: Bus,
    pub state: DeviceState,
    pub profiles: Seq<Seq<char>>,
    pub active_profile: Option<Seq<char>>,
    pub channels: u32,
    pub sample_rates: Seq<u32>,
    pub volume: u32,
    pub muted: bool,
    pub alsa: Option<Seq<char>>,
}

pub open spec fn opt_view(o: Option<String>) -> Option<Seq<char>> {
    match o {
        Some(s) => Some(s@),
        None => None,
    }
}

impl View for Device {
    type V = DeviceView;

    open spec fn view(&self) -> DeviceView {
        DeviceView {
            id: self.id@,
            name: self.name@,
            description: self.description@,
            kind: self.kind,
            direction: self.direction,
            bus: self.bus,
            state: self.state,
            profiles: self.profiles.deep_view(),
            active_profile: opt_view(self.active_profile),
            channels: self.channels,
            sample_rates: self.sample_rates@,
            volume: self.volume,
            muted: self.muted,
            alsa: opt_view(self.alsa),
        }
    }
}

impl DeviceView {
    /// The same device with its manager-owned `state` replaced.
    pub open spec fn with_state(self, state: DeviceState) -> DeviceView {
        DeviceView { state, ..self }
    }

    /// Hardware-level equality — everything but `state`.
    pub open spec fn hardware_equal(self, other: DeviceView) -> bool {
        self.with_state(DeviceState::Available) == other.with_state(DeviceState::Available)
    }
}

fn clone_opt_string(o: &Option<String>) -> (r: Option<String>)
    ensures
        r == *o,
{
    match o {
        Some(s) => Some(s.clone()),
        None => None,
    }
}

fn clone_strings(v: &Vec<String>) -> (r: Vec<String>)
    ensures
        r.deep_view() == v.deep_view(),
{
    let mut r: Vec<String> = Vec::new();
    let mut i: usize = 0;
    while i < v.len()
        invariant
            i <= v.len(),
            r.deep_view() == v.deep_view().take(i as int),
        decreases v.len() - i,
    {
        let ghost before = r.deep_view();
        r.push(v[i].clone());
        proof {
            assert(r.deep_view() =~= before.push(v@[i as int]@));
            assert(v.deep_view().take(i + 1) =~= v.deep_view().take(i as int).push(v@[i as int]@));
        }
        i += 1;
    }
    assert(v.deep_view().take(i as int) =~= v.deep_view());
    r
}

fn clone_u32s(v: &Vec<u32>) -> (r: Vec<u32>)
    ensures
        r@ == v@,
{
    let mut r: Vec<u32> = Vec::new();
    let mut i: usize = 0;
    while i < v.len()
        invariant
            i <= v.len(),
            r@ == v@.take(i as int),
        decreases v.len() - i,
    {
        r.push(v[i]);
        i += 1;
        assert(r@ =~= v@.take(i as int));
    }
    assert(v@.take(i as int) =~= v@);
    r
}

impl Clone for Device {
    fn clone(&self) -> (d: Self)
        ensures
            d@ == self@,
            d.id == self.id,
            d.name == self.name,
    {
        Device {
            id: self.id.clone(),
            name: self.name.clone(),
            description: self.description.clone(),
            kind: self.kind,
            direction: self.direction,
            bus: self.bus,
            state: self.state,
            profiles: clone_strings(&self.profiles),
            active_profile: clone_opt_string(&self.active_profile),
            channels: self.channels,
            sample_rates: clone_u32s(&self.sample_rates),
            volume: self.volume,
            muted: self.muted,
            alsa: clone_opt_string(&self.alsa),
        }
    }
}

fn strings_equal(a: &Vec<String>, b: &Vec<String>) -> (r: bool)
    ensures
        r == (a.deep_view() == b.deep_view()),
{
    assert(a.deep_view().len() == a@.len() && b.deep_view().len() == b@.len());
    if a.len() != b.len() {
        return false;
    }
    let mut i: usize = 0;
    while i < a.len()
        invariant
            a.len() == b.len(),
            i <= a.len(),
            forall|k: int| 0 <= k < i ==> a.deep_view()[k] == b.deep_view()[k],
        decreases a.len() - i,
    {
        if a[i] != b[i] {
            assert(a.deep_view()[i as int] != b.deep_view()[i as int]);
            return false;
        }
        i += 1;
    }
    assert(a.deep_view() =~= b.deep_view());
    true
}

fn u32s_equal(a: &Vec<u32>, b: &Vec<u32>) -> (r: bool)
    ensures
        r == (a@ == b@),
{
    if a.len() != b.len() {
        return false;
    }
    let mut i: usize = 0;
    while i < a.len()
        invariant
            a.len() == b.len(),
            i <= a.len(),
            forall|k: int| 0 <= k < i ==> a@[k] == b@[k],
        decreases a.len() - i,
    {
        if a[i] != b[i] {
            return false;
        }
        i += 1;
    }
    assert(a@ =~= b@);
    true
}

pub fn opt_strings_equal(a: &Option<String>, b: &Option<String>) -> (r: bool)
    ensures
        r == (opt_view(*a) == opt_view(*b)),
{
    match (a, b) {
        (Some(x), Some(y)) => *x == *y,
        (None, None) => true,
        _ => false,
    }
}

/// Hardware-level equality — excludes `state` (manager-owned).
pub fn hardware_equal(a: &Device, b: &Device) -> (r: bool)
    ensures
        r == a@.hardware_equal(b@),
{
    a.id == b.id
        && a.name == b.name
        && a.description == b.description
        && a.kind == b.kind
        && a.direction == b.direction
        && a.bus == b.bus
        && strings_equal(&a.profiles, &b.profiles)
        && opt_strings_equal(&a.active_profile, &b.active_profile)
        && a.channels == b.channels
        && u32s_equal(&a.sample_rates, &b.sample_rates)
        && a.volume == b.volume
        && a.muted == b.muted
        && opt_strings_equal(&a.alsa, &b.alsa)
}

impl Device {
    pub fn new(id: &str, name: &str, kind: DeviceKind, direction: Direction, bus: Bus) -> (d: Self)
        ensures
            d.id@ == id@,
            d.name@ == name@,
            d.description@ == name@,
            d.kind == kind,
            d.direction == direction,
            d.bus == bus,
            d.state == DeviceState::Available,
            d.profiles@.len() == 1,
            d.profiles@[0]@ == "stereo"@,
            d.active_profile.is_some() && d.active_profile.unwrap()@ == "stereo"@,
            d.channels == 2,
            d.sample_rates@ == seq![44100u32, 48000u32],
            d.volume == 50,
            !d.muted,
            d.alsa.is_none(),
    {
        let mut profiles: Vec<String> = Vec::new();
        profiles.push(String::from_str("stereo"));
        let mut rates: Vec<u32> = Vec::new();
        rates.push(44100);
        rates.push(48000);
        Device {
            id: String::from_str(id),
            name: String::from_str(name),
            description: String::from_str(name),
            kind,
            direction,
            bus,
            state: DeviceState::Available,
            profiles,
            active_profile: Some(String::from_str("stereo")),
            channels: 2,
            sample_rates: rates,
            volume: 50,
            muted: false,
            alsa: None,
        }
    }
}

/// Whether a listing for `filter` shows a device of `direction`: inputs
/// show everything that is not output-only, outputs everything that is
/// not input-only, no filter shows all.
pub open spec fn listed(direction: Direction, filter: Option<Direction>) -> bool {
    match filter {
        None => true,
        Some(Direction::Input) => direction != Direction::Output,
        Some(_) => direction != Direction::Input,
    }
}

/// The views of the devices a listing for `filter` shows, in order.
pub open spec fn listing(devices: Seq<Device>, filter: Option<Direction>) -> Seq<DeviceView>
    decreases devices.len(),
{
    if devices.len() == 0 {
        Seq::empty()
    } else {
        let rest = listing(devices.drop_last(), filter);
        if listed(devices.last().direction, filter) {
            rest.push(devices.last()@)
        } else {
            rest
        }
    }
}

/// The devices a listing for `filter` shows, in order.
pub fn devices_for(devices: &Vec<Device>, filter: Option<Direction>) -> (r: Vec<Device>)
    ensures
        r@.map_values(|d: Device| d@) == listing(devices@, filter),
{
    let mut out: Vec<Device> = Vec::new();
    let mut i: usize = 0;
    while i < devices.len()
        invariant
            i <= devices@.len(),
            out@.map_values(|d: Device| d@) == listing(devices@.take(i as int), filter),
        decreases devices@.len() - i,
    {
        let d = &devices[i];
        let show = match filter {
            None => true,
            Some(Direction::Input) => d.direction != Direction::Output,
            Some(_) => d.direction != Direction::Input,
        };
        assert(devices@.take(i + 1).drop_last() =~= devices@.take(i as int));
        if show {
            out.push(d.clone());
        }
        assert(out@.map_values(|d: Device| d@) =~= listing(devices@.take(i + 1), filter));
        i += 1;
    }
    assert(devices@.take(devices@.len() as int) =~= devices@);
    out
}

} // verus!
