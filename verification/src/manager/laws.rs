//! What holds across the manager's operations: writes are read back, the
//! master volume is the default output's, and a rescan makes the registry
//! mirror the hardware.

use vstd::prelude::*;

use crate::devices::{opt_view, Device, DeviceKind, DeviceState, DeviceView, Direction};
use crate::errors::AudioError;
use crate::ipc::messages::{Command, Reply};
use crate::ipc::messages::Event;
use crate::keyed::{has_key, index_of_key, key_map, keys_sorted, lemma_key_map_at, lemma_sorted_same_keys, lemma_sorted_unique, Keyed};
use crate::manager::reconcile::{pick_rank, merge_event, merge_events_from, merged, merged_from, preferred, removal_events, retained, scanned_has};
use crate::manager::state::{
    aimed_at, handled, set_volume_step, Step,
    default_event, device_with_mute, device_with_volume, lemma_preferred_ignores_state, lookup, master_of, refresh_done,
    restated, scan_registry, set_default_input_done, set_default_output_done, settled_default, stream_update_done, stream_with_volume,
    stream_with_device, stream_with_mute, update_keyed, valid_default, with_states, AudioState, Outcome,
};
use crate::streams::AudioStream;

verus! {

/// Replacing the record at `p` by one with the same key: looking up that
/// key finds the new record, any other key finds what it found before.
pub proof fn lemma_lookup_update<T: Keyed>(s: Seq<T>, p: int, x: T)
    requires
        keys_sorted(s),
        0 <= p < s.len(),
        x.key() == s[p].key(),
    ensures
        lookup(s.update(p, x), x.key()) == Some(x),
        forall|k: Seq<char>| k != x.key() ==> #[trigger] lookup(s.update(p, x), k) == lookup(s, k),
{
    let t = s.update(p, x);
    assert(t[p].key() == x.key());
    assert(has_key(t, x.key()));
    let q = index_of_key(t, x.key());
    if q != p {
        assert(s[q].key() == t[q].key());
        lemma_sorted_unique(s, p, q);
    }
    assert forall|k: Seq<char>| k != x.key() implies #[trigger] lookup(t, k) == lookup(s, k) by {
        if has_key(s, k) {
            let a = index_of_key(s, k);
            assert(t[a].key() == k);
            assert(has_key(t, k));
            let b = index_of_key(t, k);
            assert(s[b].key() == t[b].key());
            lemma_sorted_unique(s, a, b);
        }
        if has_key(t, k) {
            let b = index_of_key(t, k);
            assert(s[b].key() == t[b].key());
            assert(has_key(s, k));
        }
    }
}

/// `SetVolume` is read back by `GetVolume`: once the volume is written to
/// a device, that device reports it (its mute unchanged) and every other
/// device is as before. As the master volume is the default output's, it
/// reads the written volume when that device is the default output.
pub proof fn law_volume_read_back(devices: Seq<Device>, id: Seq<char>, volume: u32)
    requires
        keys_sorted(devices),
        has_key(devices, id),
    ensures
        ({
            let after = update_keyed(devices, id, |d: Device| device_with_volume(d, volume));
            &&& lookup(after, id) matches Some(d) && d.volume == volume && d.muted == lookup(devices, id)->0.muted
            &&& forall|k: Seq<char>| k != id ==> #[trigger] lookup(after, k) == lookup(devices, k)
            &&& forall|o: String| o@ == id ==> #[trigger] master_of(after, Some(o)) == (volume, lookup(devices, id)->0.muted)
        }),
{
    let p = index_of_key(devices, id);
    let x = device_with_volume(devices[p], volume);
    lemma_lookup_update(devices, p, x);
    assert(lookup(devices, id) == Some(devices[p]));
}

/// `Mute`/`Unmute` is read back the same way: the device reports the
/// written mute, its volume unchanged, and every other device is as before.
pub proof fn law_mute_read_back(devices: Seq<Device>, id: Seq<char>, muted: bool)
    requires
        keys_sorted(devices),
        has_key(devices, id),
    ensures
        ({
            let after = update_keyed(devices, id, |d: Device| device_with_mute(d, muted));
            &&& lookup(after, id) matches Some(d) && d.muted == muted && d.volume == lookup(devices, id)->0.volume
            &&& forall|k: Seq<char>| k != id ==> #[trigger] lookup(after, k) == lookup(devices, k)
            &&& forall|o: String| o@ == id ==> #[trigger] master_of(after, Some(o)) == (lookup(devices, id)->0.volume, muted)
        }),
{
    let p = index_of_key(devices, id);
    let x = device_with_mute(devices[p], muted);
    lemma_lookup_update(devices, p, x);
    assert(lookup(devices, id) == Some(devices[p]));
}

/// A successful `SetDefaultOutput` is read back: the default output is the
/// named device, which is present, is no input-only device, and is active.
pub proof fn law_default_output_read_back(pre: AudioState, post: AudioState, id: String, o: Outcome)
    requires
        pre.wf(),
        set_default_output_done(pre, post, id, o),
        o.result is Ok,
    ensures
        post.default_output() == Some(id),
        lookup(post.devices(), id@) matches Some(d) && d.state == DeviceState::Active && d.direction
            != Direction::Input,
{
    let devs = pre.devices();
    assert(has_key(devs, id@));
    let p = index_of_key(devs, id@);
    let after = post.devices();
    assert(devs[p].id@ == id@);
    assert(after == restated(devs, id@, pre.default_output()));
    assert(after.len() == devs.len());
    assert(after[p].id@ == id@);
    assert(after[p].key() == id@);
    assert(has_key(after, id@));
    let q = index_of_key(after, id@);
    assert(devs[q].id@ == after[q].id@);
    lemma_sorted_unique(devs, p, q);
}

/// A successful `SetDefaultInput` is read back: the default input is the
/// named device, which is present, is no output-only device, and is active.
pub proof fn law_default_input_read_back(pre: AudioState, post: AudioState, id: String, o: Outcome)
    requires
        pre.wf(),
        set_default_input_done(pre, post, id, o),
        o.result is Ok,
    ensures
        post.default_input() == Some(id),
        lookup(post.devices(), id@) matches Some(d) && d.state == DeviceState::Active && d.direction
            != Direction::Output,
{
    let devs = pre.devices();
    assert(has_key(devs, id@));
    let p = index_of_key(devs, id@);
    let after = post.devices();
    assert(devs[p].id@ == id@);
    assert(after == restated(devs, id@, pre.default_input()));
    assert(after.len() == devs.len());
    assert(after[p].id@ == id@);
    assert(after[p].key() == id@);
    assert(has_key(after, id@));
    let q = index_of_key(after, id@);
    assert(devs[q].id@ == after[q].id@);
    lemma_sorted_unique(devs, p, q);
}

/// A stream moved with `MoveStream` is read back by `ListStreams`: it now
/// targets the named device, and every other stream is as before.
pub proof fn law_stream_move_read_back(
    pre: AudioState,
    post: AudioState,
    stream_id: String,
    device_id: String,
    reply: crate::ipc::messages::Reply,
    o: Outcome,
)
    requires
        pre.wf(),
        has_key(pre.streams(), stream_id@),
        stream_update_done(pre, post, stream_id, |st: AudioStream| stream_with_device(st, device_id), reply, o),
    ensures
        lookup(post.streams(), stream_id@) matches Some(s) && s.device == device_id,
        forall|k: Seq<char>| k != stream_id@ ==> #[trigger] lookup(post.streams(), k) == lookup(pre.streams(), k),
{
    let s = pre.streams();
    let p = index_of_key(s, stream_id@);
    lemma_lookup_update(s, p, stream_with_device(s[p], device_id));
}

/// A stream mute set with `SetStreamMute` is read back by `ListStreams`.
pub proof fn law_stream_mute_read_back(
    pre: AudioState,
    post: AudioState,
    stream_id: String,
    muted: bool,
    reply: crate::ipc::messages::Reply,
    o: Outcome,
)
    requires
        pre.wf(),
        has_key(pre.streams(), stream_id@),
        stream_update_done(pre, post, stream_id, |st: AudioStream| stream_with_mute(st, muted), reply, o),
    ensures
        lookup(post.streams(), stream_id@) matches Some(s) && s.muted == muted,
        forall|k: Seq<char>| k != stream_id@ ==> #[trigger] lookup(post.streams(), k) == lookup(pre.streams(), k),
{
    let s = pre.streams();
    let p = index_of_key(s, stream_id@);
    lemma_lookup_update(s, p, stream_with_mute(s[p], muted));
}

/// A stream volume set with `SetStreamVolume` is read back by
/// `ListStreams`: the stream reports it and every other stream is as before.
pub proof fn law_stream_volume_read_back(
    pre: AudioState,
    post: AudioState,
    stream_id: String,
    volume: u32,
    reply: crate::ipc::messages::Reply,
    o: Outcome,
)
    requires
        pre.wf(),
        has_key(pre.streams(), stream_id@),
        stream_update_done(pre, post, stream_id, |st: AudioStream| stream_with_volume(st, volume), reply, o),
    ensures
        lookup(post.streams(), stream_id@) matches Some(s) && s.volume == volume,
        forall|k: Seq<char>| k != stream_id@ ==> #[trigger] lookup(post.streams(), k) == lookup(pre.streams(), k),
{
    let s = pre.streams();
    let p = index_of_key(s, stream_id@);
    lemma_lookup_update(s, p, stream_with_volume(s[p], volume));
}

// ───────────────────────── a rescan mirrors the hardware ─────────────────────────

/// Taking in `scanned[i..]` adds exactly the keys scanned there.
proof fn lemma_merged_from_dom(m: Map<Seq<char>, DeviceView>, scanned: Seq<Device>, i: int, k: Seq<char>)
    requires
        0 <= i <= scanned.len(),
    ensures
        merged_from(m, scanned, i).contains_key(k) <==> (m.contains_key(k) || exists|j: int|
            i <= j < scanned.len() && #[trigger] scanned[j].id@ == k),
    decreases scanned.len() - i,
{
    if i < scanned.len() {
        lemma_merged_from_dom(merged(m, scanned[i]), scanned, i + 1, k);
        if exists|j: int| i <= j < scanned.len() && #[trigger] scanned[j].id@ == k {
            let j = choose|j: int| i <= j < scanned.len() && #[trigger] scanned[j].id@ == k;
            if j > i {
                assert(exists|j2: int| i + 1 <= j2 < scanned.len() && #[trigger] scanned[j2].id@ == k);
            }
        }
    }
}

/// After a refresh the registry holds exactly the devices the scan
/// reported: the scan is the source of truth for which devices exist.
pub proof fn law_refresh_mirrors_scan(pre: AudioState, post: AudioState, scanned: Seq<Device>, events: Seq<Event>)
    requires
        refresh_done(pre, post, scanned, events),
    ensures
        forall|k: Seq<char>| #[trigger] key_map(post.devices()).contains_key(k) <==> scanned_has(scanned, k),
{
    let reg = scan_registry(pre.devices(), scanned);
    let kept = retained(key_map(pre.devices()), scanned);
    assert forall|k: Seq<char>| #[trigger] key_map(post.devices()).contains_key(k) <==> scanned_has(scanned, k) by {
        lemma_merged_from_dom(kept, scanned, 0, k);
        assert(key_map(post.devices()).contains_key(k) == reg.contains_key(k));
        if scanned_has(scanned, k) {
            let j = choose|j: int| 0 <= j < scanned.len() && #[trigger] scanned[j].id@ == k;
            assert(exists|j2: int| 0 <= j2 < scanned.len() && #[trigger] scanned[j2].id@ == k);
        }
        if exists|j: int| 0 <= j < scanned.len() && #[trigger] scanned[j].id@ == k {
            let j = choose|j: int| 0 <= j < scanned.len() && #[trigger] scanned[j].id@ == k;
            assert(scanned[j].id@ == k);
        }
    }
}

/// Entries under keys that `scanned[i..]` does not report stay as they are.
proof fn lemma_merged_from_untouched(m: Map<Seq<char>, DeviceView>, scanned: Seq<Device>, i: int, k: Seq<char>)
    requires
        0 <= i <= scanned.len(),
        forall|j: int| i <= j < scanned.len() ==> #[trigger] scanned[j].id@ != k,
    ensures
        merged_from(m, scanned, i).contains_key(k) == m.contains_key(k),
        m.contains_key(k) ==> merged_from(m, scanned, i)[k] == m[k],
    decreases scanned.len() - i,
{
    if i < scanned.len() {
        assert(scanned[i].id@ != k);
        lemma_merged_from_untouched(merged(m, scanned[i]), scanned, i + 1, k);
    }
}

/// With distinct ids, each scanned device ends up in the registry as the
/// hardware reports it (up to its state).
proof fn lemma_merged_from_entry(m: Map<Seq<char>, DeviceView>, scanned: Seq<Device>, i: int, j: int)
    requires
        0 <= i <= j < scanned.len(),
        forall|a: int, b: int| 0 <= a < b < scanned.len() ==> #[trigger] scanned[a].id@ != #[trigger] scanned[b].id@,
    ensures
        merged_from(m, scanned, i).contains_key(scanned[j].id@),
        merged_from(m, scanned, i)[scanned[j].id@].hardware_equal(scanned[j]@),
    decreases j - i,
{
    if i < j {
        lemma_merged_from_entry(merged(m, scanned[i]), scanned, i + 1, j);
    } else {
        let m1 = merged(m, scanned[j]);
        assert(m1.contains_key(scanned[j].id@));
        assert(m1[scanned[j].id@].hardware_equal(scanned[j]@));
        assert forall|x: int| j + 1 <= x < scanned.len() implies #[trigger] scanned[x].id@ != scanned[j].id@ by {}
        lemma_merged_from_untouched(m1, scanned, j + 1, scanned[j].id@);
    }
}

/// After a refresh with a scan that reports each device once, every
/// scanned device is in the registry exactly as the hardware reports it,
/// but for the state, which follows the defaults.
pub proof fn law_refresh_takes_hardware_view(
    pre: AudioState,
    post: AudioState,
    scanned: Seq<Device>,
    events: Seq<Event>,
    j: int,
)
    requires
        refresh_done(pre, post, scanned, events),
        0 <= j < scanned.len(),
        forall|a: int, b: int| 0 <= a < b < scanned.len() ==> #[trigger] scanned[a].id@ != #[trigger] scanned[b].id@,
    ensures
        key_map(post.devices()).contains_key(scanned[j].id@),
        key_map(post.devices())[scanned[j].id@].hardware_equal(scanned[j]@),
{
    let kept = retained(key_map(pre.devices()), scanned);
    lemma_merged_from_entry(kept, scanned, 0, j);
    let reg = scan_registry(pre.devices(), scanned);
    let k = scanned[j].id@;
    assert(key_map(post.devices()) == with_states(reg, post.default_output(), post.default_input()));
    assert(reg[k].hardware_equal(scanned[j]@));
}

/// No old device vanished: no removal events.
proof fn lemma_no_removals(old: Seq<Device>, scanned: Seq<Device>, n: int)
    requires
        0 <= n <= old.len(),
        forall|i: int| 0 <= i < n ==> scanned_has(scanned, #[trigger] old[i].id@),
    ensures
        removal_events(old, scanned, n) == Seq::<Event>::empty(),
    decreases n,
{
    if n > 0 {
        assert(scanned_has(scanned, old[n - 1].id@));
        lemma_no_removals(old, scanned, n - 1);
    }
}

/// Taking in devices the registry already holds as reported changes
/// nothing and announces nothing.
proof fn lemma_merge_noop(m: Map<Seq<char>, DeviceView>, scanned: Seq<Device>, i: int)
    requires
        0 <= i <= scanned.len(),
        forall|j: int| i <= j < scanned.len() ==> m.contains_key(#[trigger] scanned[j].id@) && m[scanned[j].id@].hardware_equal(scanned[j]@),
    ensures
        merged_from(m, scanned, i) == m,
        merge_events_from(m, scanned, i) == Seq::<Event>::empty(),
    decreases scanned.len() - i,
{
    if i < scanned.len() {
        assert(m.contains_key(scanned[i].id@) && m[scanned[i].id@].hardware_equal(scanned[i]@));
        assert(merged(m, scanned[i]) == m);
        assert(merge_event(m, scanned[i]) == Seq::<Event>::empty());
        lemma_merge_noop(m, scanned, i + 1);
        assert(merge_event(m, scanned[i]) + merge_events_from(m, scanned, i + 1) =~= Seq::<Event>::empty());
    }
}

/// Setting the states from the same defaults twice is setting them once.
proof fn lemma_with_states_idempotent(reg: Map<Seq<char>, DeviceView>, out: Option<String>, inp: Option<String>)
    ensures
        with_states(with_states(reg, out, inp), out, inp) == with_states(reg, out, inp),
{
    assert(with_states(with_states(reg, out, inp), out, inp) =~= with_states(reg, out, inp));
}

/// Sorted registries with the same devices up to state agree on the
/// preferred default.
proof fn lemma_same_preference(a: Seq<Device>, b: Seq<Device>, out: Option<String>, inp: Option<String>, for_output: bool)
    requires
        keys_sorted(a),
        keys_sorted(b),
        key_map(b) == with_states(key_map(a), out, inp),
    ensures
        preferred(a, for_output) == preferred(b, for_output),
{
    assert forall|k: Seq<char>| has_key(a, k) <==> has_key(b, k) by {
        assert(key_map(a).contains_key(k) == key_map(b).contains_key(k));
    }
    lemma_sorted_same_keys(a, b);
    assert forall|i: int| #![trigger a[i]] #![trigger b[i]] 0 <= i < a.len() implies a[i].id@ == b[i].id@ && a[i].kind == b[i].kind
        && a[i].direction == b[i].direction by {
        assert(a[i].key() == b[i].key());
        lemma_key_map_at(a, i);
        lemma_key_map_at(b, i);
    }
    lemma_preferred_ignores_state(a, b, for_output);
}

/// Rescanning unchanged hardware changes nothing: a second refresh with
/// the same scan (each device reported once) emits no event and leaves the
/// registry and the defaults as the first one left them.
pub proof fn law_rescan_unchanged(
    pre: AudioState,
    mid: AudioState,
    post: AudioState,
    scanned: Seq<Device>,
    first: Seq<Event>,
    second: Seq<Event>,
)
    requires
        mid.wf(),
        post.wf(),
        refresh_done(pre, mid, scanned, first),
        refresh_done(mid, post, scanned, second),
        forall|a: int, b: int| 0 <= a < b < scanned.len() ==> #[trigger] scanned[a].id@ != #[trigger] scanned[b].id@,
    ensures
        second == Seq::<Event>::empty(),
        post.default_output() == mid.default_output(),
        post.default_input() == mid.default_input(),
        key_map(post.devices()) == key_map(mid.devices()),
{
    let m = key_map(mid.devices());
    let reg1 = scan_registry(pre.devices(), scanned);
    law_refresh_mirrors_scan(pre, mid, scanned, first);
    assert(retained(m, scanned) =~= m);
    assert forall|j: int| 0 <= j < scanned.len() implies m.contains_key(#[trigger] scanned[j].id@) && m[scanned[j].id@].hardware_equal(scanned[j]@) by {
        law_refresh_takes_hardware_view(pre, mid, scanned, first, j);
    }
    lemma_merge_noop(m, scanned, 0);
    let reg2 = scan_registry(mid.devices(), scanned);
    assert(reg2 == m);
    assert forall|i: int| 0 <= i < mid.devices().len() implies scanned_has(scanned, #[trigger] mid.devices()[i].id@) by {
        lemma_key_map_at(mid.devices(), i);
        assert(m.contains_key(mid.devices()[i].key()));
    }
    lemma_no_removals(mid.devices(), scanned, mid.devices().len() as int);

    // The defaults stay.
    match mid.default_output() {
        Some(o) => {
            let i = choose|i: int| 0 <= i < mid.devices().len() && #[trigger] mid.devices()[i].id@ == o@ && mid.devices()[i].direction != Direction::Input;
            lemma_key_map_at(mid.devices(), i);
            assert(m.contains_key(o@) && m[o@].direction != Direction::Input);
        },
        None => {
            assert(preferred(mid.devices(), true) is None);
            lemma_same_preference(mid.devices(), post.devices(), post.default_output(), post.default_input(), true);
        },
    }
    match mid.default_input() {
        Some(p) => {
            let i = choose|i: int| 0 <= i < mid.devices().len() && #[trigger] mid.devices()[i].id@ == p@ && mid.devices()[i].direction != Direction::Output;
            lemma_key_map_at(mid.devices(), i);
            assert(m.contains_key(p@) && m[p@].direction != Direction::Output);
        },
        None => {
            assert(preferred(mid.devices(), false) is None);
            lemma_same_preference(mid.devices(), post.devices(), post.default_output(), post.default_input(), false);
        },
    }
    assert(post.default_output() == mid.default_output());
    assert(post.default_input() == mid.default_input());
    assert(default_event(mid.default_output(), post.default_output(), true) =~= Seq::<Event>::empty());
    assert(default_event(mid.default_input(), post.default_input(), false) =~= Seq::<Event>::empty());
    assert(second =~= Seq::<Event>::empty());
    lemma_with_states_idempotent(reg1, mid.default_output(), mid.default_input());
}

/// Output preference: speakers and headphones first (alike), then
/// headsets, then USB, then every other kind (alike), and HDMI and
/// DisplayPort (alike) after all of them. Input preference: microphones
/// before every other kind, the others alike.
pub proof fn law_default_preference(k: DeviceKind, j: DeviceKind)
    ensures
        pick_rank(DeviceKind::Speakers, true) == pick_rank(DeviceKind::Headphones, true),
        pick_rank(DeviceKind::Headphones, true) < pick_rank(DeviceKind::Headset, true),
        pick_rank(DeviceKind::Headset, true) < pick_rank(DeviceKind::Usb, true),
        pick_rank(DeviceKind::Usb, true) < pick_rank(DeviceKind::Bluetooth, true),
        pick_rank(DeviceKind::Bluetooth, true) == pick_rank(DeviceKind::Microphone, true),
        pick_rank(DeviceKind::Bluetooth, true) == pick_rank(DeviceKind::Virtual, true),
        pick_rank(DeviceKind::Virtual, true) < pick_rank(DeviceKind::Hdmi, true),
        pick_rank(DeviceKind::Hdmi, true) == pick_rank(DeviceKind::DisplayPort, true),
        k != DeviceKind::Hdmi && k != DeviceKind::DisplayPort ==> pick_rank(k, true) < pick_rank(DeviceKind::DisplayPort, true),
        pick_rank(DeviceKind::Speakers, true) <= pick_rank(k, true),
        k != DeviceKind::Microphone ==> pick_rank(DeviceKind::Microphone, false) < pick_rank(k, false),
        k != DeviceKind::Microphone && j != DeviceKind::Microphone ==> pick_rank(k, false) == pick_rank(j, false),
{
}

/// `SetMicrophoneGain` keeps a gain within ±30 dB as asked, and clamps one
/// outside to the nearer bound; the reply reports the gain now set.
pub proof fn law_microphone_gain_clamped(pre: AudioState, post: AudioState, gain: i32, st: Step)
    requires
        handled(pre, post, Command::SetMicrophoneGain { gain }, st),
    ensures
        -30 <= post.mic_gain() <= 30,
        -30 <= gain <= 30 ==> post.mic_gain() == gain,
        gain < -30 ==> post.mic_gain() == -30,
        gain > 30 ==> post.mic_gain() == 30,
        st matches Step::Finished(o) && o.result == Ok::<Reply, AudioError>(Reply::MicrophoneGain { gain_db: post.mic_gain() }),
{
}

/// `SetVolume` refuses a volume only when it exceeds the maximum; any
/// volume up to and including the maximum, aimed at a present device, is
/// written to that device's hardware as asked.
pub proof fn law_volume_accepted_up_to_max(pre: AudioState, device: Option<String>, volume: u32, st: Step)
    requires
        set_volume_step(pre, device, volume, st),
    ensures
        (st matches Step::Finished(o) && o.result == Err::<Reply, AudioError>(AudioError::InvalidVolume(volume)))
            <==> volume > pre.max_volume(),
        volume <= pre.max_volume() ==> match aimed_at(device, pre.default_output()) {
            Some(id) => match lookup(pre.devices(), id@) {
                Some(d) => st matches Step::PushVolume { device: x, volume: v } && x@ == d@ && v == volume,
                None => true,
            },
            None => true,
        },
{
}

} // verus!
