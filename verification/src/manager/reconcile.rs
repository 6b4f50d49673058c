//! Reconciling the device registry with a hardware scan.

use vstd::prelude::*;

use crate::devices::{hardware_equal, Device, DeviceKind, DeviceState, DeviceView, Direction};
use crate::ipc::messages::Event;
use crate::keyed::{has_key, index_of_key, key_map, keys_sorted, lemma_insert_sorted, lemma_key_map_at, lemma_key_map_insert, lemma_key_map_update, lemma_sorted_unique, lemma_update_sorted, locate, Keyed};
use crate::text::{lemma_lex_irreflexive, lemma_lex_transitive, lex_lt};

verus! {

/// Some scanned device has id `k`.
pub open spec fn scanned_has(scanned: Seq<Device>, k: Seq<char>) -> bool {
    exists|j: int| 0 <= j < scanned.len() && #[trigger] scanned[j].id@ == k
}

/// `DeviceRemoved` events for the first `n` old devices that the scan no
/// longer reports, in order.
pub open spec fn removal_events(old: Seq<Device>, scanned: Seq<Device>, n: int) -> Seq<Event>
    decreases n,
{
    if n <= 0 || n > old.len() {
        Seq::empty()
    } else {
        let rest = removal_events(old, scanned, n - 1);
        if scanned_has(scanned, old[n - 1].id@) {
            rest
        } else {
            rest.push(Event::DeviceRemoved { id: old[n - 1].id })
        }
    }
}

/// The old registry without the devices the scan no longer reports.
pub open spec fn retained(m: Map<Seq<char>, DeviceView>, scanned: Seq<Device>) -> Map<Seq<char>, DeviceView> {
    Map::new(|k: Seq<char>| m.contains_key(k) && scanned_has(scanned, k), |k: Seq<char>| m[k])
}

/// The registry after taking in one scanned device: new devices are added,
/// devices whose hardware view differs are replaced.
pub open spec fn merged(m: Map<Seq<char>, DeviceView>, d: Device) -> Map<Seq<char>, DeviceView> {
    if !m.contains_key(d.id@) || !m[d.id@].hardware_equal(d@) {
        m.insert(d.id@, d@)
    } else {
        m
    }
}

/// The event one scanned device causes, as a (possibly empty) sequence.
pub open spec fn merge_event(m: Map<Seq<char>, DeviceView>, d: Device) -> Seq<Event> {
    if !m.contains_key(d.id@) {
        seq![Event::DeviceAdded { id: d.id, name: d.name }]
    } else if !m[d.id@].hardware_equal(d@) {
        seq![Event::DeviceChanged { id: d.id }]
    } else {
        Seq::empty()
    }
}

/// The registry after taking in `scanned[i..]`.
pub open spec fn merged_from(m: Map<Seq<char>, DeviceView>, scanned: Seq<Device>, i: int) -> Map<Seq<char>, DeviceView>
    decreases scanned.len() - i,
{
    if i < 0 || i >= scanned.len() {
        m
    } else {
        merged_from(merged(m, scanned[i]), scanned, i + 1)
    }
}

/// The events caused by taking in `scanned[i..]`, in scan order.
pub open spec fn merge_events_from(m: Map<Seq<char>, DeviceView>, scanned: Seq<Device>, i: int) -> Seq<Event>
    decreases scanned.len() - i,
{
    if i < 0 || i >= scanned.len() {
        Seq::empty()
    } else {
        merge_event(m, scanned[i]) + merge_events_from(merged(m, scanned[i]), scanned, i + 1)
    }
}

// ───────────────────────── phase 1: drop vanished devices ─────────────────────────

/// Some scanned device has the id `id`.
fn scan_contains(scanned: &Vec<Device>, id: &String) -> (r: bool)
    ensures
        r == scanned_has(scanned@, id@),
{
    let mut j: usize = 0;
    while j < scanned.len()
        invariant
            j <= scanned@.len(),
            forall|k: int| 0 <= k < j ==> #[trigger] scanned@[k].id@ != id@,
        decreases scanned@.len() - j,
    {
        if scanned[j].id == *id {
            return true;
        }
        j += 1;
    }
    false
}

/// The old devices the scan still reports, and `DeviceRemoved` events for
/// the others.
pub fn retain_scanned(old: &Vec<Device>, scanned: &Vec<Device>) -> (r: (Vec<Device>, Vec<Event>))
    requires
        keys_sorted(old@),
    ensures
        keys_sorted(r.0@),
        key_map(r.0@) == retained(key_map(old@), scanned@),
        r.1@ == removal_events(old@, scanned@, old@.len() as int),
{
    let mut kept: Vec<Device> = Vec::new();
    let mut events: Vec<Event> = Vec::new();
    let mut i: usize = 0;
    while i < old.len()
        invariant
            keys_sorted(old@),
            i <= old@.len(),
            keys_sorted(kept@),
            forall|k: Seq<char>| #[trigger] has_key(kept@, k) <==> (has_key(old@.take(i as int), k) && scanned_has(scanned@, k)),
            forall|j: int| 0 <= j < kept@.len() ==> #[trigger] kept@[j]@ == key_map(old@)[kept@[j].key()],
            events@ == removal_events(old@, scanned@, i as int),
        decreases old@.len() - i,
    {
        let d = &old[i];
        let keep = scan_contains(scanned, &d.id);
        proof {
            assert(old@.take(i + 1) =~= old@.take(i as int).push(old@[i as int]));
        }
        if keep {
            let ghost before = kept@;
            let c = d.clone();
            kept.push(c);
            proof {
                lemma_key_map_at(old@, i as int);
                assert(before.push(c) == kept@);
                assert forall|j: int| 0 <= j < before.len() implies lex_lt(#[trigger] before[j].key(), c.key()) by {
                    assert(has_key(before, before[j].key()));
                    let q = choose|q: int| 0 <= q < i && #[trigger] old@.take(i as int)[q].key() == before[j].key();
                    assert(old@[q].key() == before[j].key());
                    assert(lex_lt(old@[q].key(), old@[i as int].key()));
                }
                lemma_insert_sorted(before, before.len() as int, c);
                assert(before.insert(before.len() as int, c) =~= kept@);
                assert forall|k: Seq<char>| #[trigger] has_key(kept@, k) <==> (has_key(old@.take(i + 1), k) && scanned_has(scanned@, k)) by {
                    if has_key(kept@, k) {
                        let j = choose|j: int| 0 <= j < kept@.len() && #[trigger] kept@[j].key() == k;
                        if j < before.len() {
                            assert(before[j].key() == k);
                            assert(has_key(before, k));
                            let q = choose|q: int| 0 <= q < i && #[trigger] old@.take(i as int)[q].key() == k;
                            assert(old@.take(i + 1)[q].key() == k);
                        } else {
                            assert(old@.take(i + 1)[i as int].key() == k);
                        }
                    }
                    if has_key(old@.take(i + 1), k) && scanned_has(scanned@, k) {
                        let q = choose|q: int| 0 <= q < i + 1 && #[trigger] old@.take(i + 1)[q].key() == k;
                        if q < i {
                            assert(old@.take(i as int)[q].key() == k);
                            assert(has_key(before, k));
                            let j = choose|j: int| 0 <= j < before.len() && #[trigger] before[j].key() == k;
                            assert(kept@[j].key() == k);
                        } else {
                            assert(kept@[before.len() as int].key() == k);
                        }
                    }
                }
            }
        } else {
            events.push(Event::DeviceRemoved { id: d.id.clone() });
            proof {
                assert forall|k: Seq<char>| #[trigger] has_key(kept@, k) <==> (has_key(old@.take(i + 1), k) && scanned_has(scanned@, k)) by {
                    if has_key(old@.take(i + 1), k) && scanned_has(scanned@, k) {
                        let q = choose|q: int| 0 <= q < i + 1 && #[trigger] old@.take(i + 1)[q].key() == k;
                        if q < i {
                            assert(old@.take(i as int)[q].key() == k);
                        }
                    }
                    if has_key(kept@, k) {
                        let j = choose|j: int| 0 <= j < kept@.len() && #[trigger] kept@[j].key() == k;
                        let q = choose|q: int| 0 <= q < i && #[trigger] old@.take(i as int)[q].key() == k;
                        assert(old@.take(i + 1)[q].key() == k);
                    }
                }
            }
        }
        i += 1;
    }
    proof {
        assert(old@.take(old@.len() as int) =~= old@);
        let a = key_map(kept@);
        let b = retained(key_map(old@), scanned@);
        assert forall|k: Seq<char>| #[trigger] a.contains_key(k) == b.contains_key(k) by {}
        assert forall|k: Seq<char>| #[trigger] a.contains_key(k) implies a[k] == b[k] by {
            let j = choose|j: int| 0 <= j < kept@.len() && #[trigger] kept@[j].key() == k;
            lemma_key_map_at(kept@, j);
        }
        assert(a =~= b);
    }
    (kept, events)
}

// ───────────────────────── phase 2: take in the scan ─────────────────────────

/// Take the scanned devices into the registry, in scan order: unknown ids
/// are added, known ones replaced when their hardware view differs.
pub fn merge_scan(cur: &mut Vec<Device>, scanned: &Vec<Device>) -> (events: Vec<Event>)
    requires
        keys_sorted(old(cur)@),
    ensures
        keys_sorted(final(cur)@),
        key_map(final(cur)@) == merged_from(key_map(old(cur)@), scanned@, 0),
        events@ == merge_events_from(key_map(old(cur)@), scanned@, 0),
{
    let ghost m0 = key_map(cur@);
    let mut events: Vec<Event> = Vec::new();
    let mut i: usize = 0;
    while i < scanned.len()
        invariant
            i <= scanned@.len(),
            keys_sorted(cur@),
            merged_from(key_map(cur@), scanned@, i as int) == merged_from(m0, scanned@, 0),
            events@ + merge_events_from(key_map(cur@), scanned@, i as int) == merge_events_from(m0, scanned@, 0),
        decreases scanned@.len() - i,
    {
        let d = &scanned[i];
        let ghost m = key_map(cur@);
        let ghost ev = events@;
        let (p, found) = locate(cur, d.id.as_str());
        if !found {
            events.push(Event::DeviceAdded { id: d.id.clone(), name: d.name.clone() });
            let c = d.clone();
            let ghost before = cur@;
            cur.insert(p, c);
            proof {
                assert(!m.contains_key(d.id@));
                lemma_insert_sorted(before, p as int, c);
                lemma_key_map_insert(before, p as int, c);
                assert(key_map(cur@) == merged(m, scanned@[i as int]));
                assert(events@ == ev + merge_event(m, scanned@[i as int]));
            }
        } else {
            proof {
                lemma_key_map_at(cur@, p as int);
            }
            if !hardware_equal(&cur[p], d) {
                events.push(Event::DeviceChanged { id: d.id.clone() });
                let c = d.clone();
                let ghost before = cur@;
                cur.set(p, c);
                proof {
                    lemma_key_map_update(before, p as int, c);
                    assert(key_map(cur@) == merged(m, scanned@[i as int]));
                    assert(events@ == ev + merge_event(m, scanned@[i as int]));
                }
            } else {
                proof {
                    assert(merged(m, scanned@[i as int]) == m);
                    assert(events@ =~= ev + merge_event(m, scanned@[i as int]));
                }
            }
        }
        proof {
            assert(ev + merge_events_from(m, scanned@, i as int) == merge_events_from(m0, scanned@, 0));
            assert(merge_events_from(m, scanned@, i as int) == merge_event(m, scanned@[i as int])
                + merge_events_from(merged(m, scanned@[i as int]), scanned@, i + 1));
            assert(events@ + merge_events_from(key_map(cur@), scanned@, i + 1) =~= ev + merge_events_from(m, scanned@, i as int));
        }
        i += 1;
    }
    events
}

// ───────────────────────── phase 3: choose defaults ─────────────────────────

/// Preference among outputs: speakers/headphones, then headsets, USB,
/// others, and HDMI/DisplayPort last. Among inputs: microphones first.
pub open spec fn pick_rank(k: DeviceKind, for_output: bool) -> int {
    if for_output {
        match k {
            DeviceKind::Speakers | DeviceKind::Headphones => 0,
            DeviceKind::Headset => 1,
            DeviceKind::Usb => 2,
            DeviceKind::Hdmi | DeviceKind::DisplayPort => 4,
            _ => 3,
        }
    } else {
        if k == DeviceKind::Microphone {
            0
        } else {
            1
        }
    }
}

/// The direction a default output (input) may not have.
pub open spec fn excluded_direction(for_output: bool) -> Direction {
    if for_output {
        Direction::Input
    } else {
        Direction::Output
    }
}

pub open spec fn eligible(d: Device, for_output: bool) -> bool {
    d.direction != excluded_direction(for_output)
}

/// `devs[b]` is eligible and first by (preference rank, id) among the
/// eligible devices.
pub open spec fn ranks_first(devs: Seq<Device>, b: int, for_output: bool) -> bool {
    &&& 0 <= b < devs.len()
    &&& eligible(devs[b], for_output)
    &&& forall|j: int| 0 <= j < devs.len() && #[trigger] eligible(devs[j], for_output) ==> {
        ||| pick_rank(devs[b].kind, for_output) < pick_rank(devs[j].kind, for_output)
        ||| pick_rank(devs[b].kind, for_output) == pick_rank(devs[j].kind, for_output) && (j == b || lex_lt(devs[b].id@, devs[j].id@))
    }
}

/// The id of the preferred default output (input), if any device qualifies.
pub open spec fn preferred(devs: Seq<Device>, for_output: bool) -> Option<Seq<char>> {
    if exists|b: int| ranks_first(devs, b, for_output) {
        Some(devs[choose|b: int| ranks_first(devs, b, for_output)].id@)
    } else {
        None
    }
}

pub proof fn lemma_ranks_first_unique(devs: Seq<Device>, b1: int, b2: int, for_output: bool)
    requires
        ranks_first(devs, b1, for_output),
        ranks_first(devs, b2, for_output),
    ensures
        b1 == b2,
{
    assert(eligible(devs[b1], for_output) && eligible(devs[b2], for_output));
    if b1 != b2 {
        lemma_lex_transitive(devs[b1].id@, devs[b2].id@, devs[b1].id@);
        lemma_lex_irreflexive(devs[b1].id@);
    }
}

fn rank_of(k: DeviceKind, for_output: bool) -> (r: u8)
    ensures
        r as int == pick_rank(k, for_output),
{
    if for_output {
        match k {
            DeviceKind::Speakers | DeviceKind::Headphones => 0,
            DeviceKind::Headset => 1,
            DeviceKind::Usb => 2,
            DeviceKind::Hdmi | DeviceKind::DisplayPort => 4,
            _ => 3,
        }
    } else {
        match k {
            DeviceKind::Microphone => 0,
            _ => 1,
        }
    }
}

/// The preferred default output (`for_output`) or input among `devs`.
pub fn pick_default(devs: &Vec<Device>, for_output: bool) -> (r: Option<String>)
    requires
        keys_sorted(devs@),
    ensures
        crate::devices::opt_view(r) == preferred(devs@, for_output),
        r is None <==> forall|j: int| 0 <= j < devs@.len() ==> !#[trigger] eligible(devs@[j], for_output),
{
    let excluded = if for_output {
        Direction::Input
    } else {
        Direction::Output
    };
    let mut best: Option<usize> = None;
    let mut i: usize = 0;
    while i < devs.len()
        invariant
            keys_sorted(devs@),
            i <= devs@.len(),
            excluded == excluded_direction(for_output),
            best is None ==> forall|j: int| 0 <= j < i ==> !#[trigger] eligible(devs@[j], for_output),
            best matches Some(b) ==> b < i && eligible(devs@[b as int], for_output) && forall|j: int|
                0 <= j < i && #[trigger] eligible(devs@[j], for_output) ==> {
                    ||| pick_rank(devs@[b as int].kind, for_output) < pick_rank(devs@[j].kind, for_output)
                    ||| pick_rank(devs@[b as int].kind, for_output) == pick_rank(devs@[j].kind, for_output) && b <= j
                },
        decreases devs@.len() - i,
    {
        if devs[i].direction != excluded {
            match best {
                None => {
                    best = Some(i);
                },
                Some(b) => {
                    if rank_of(devs[i].kind, for_output) < rank_of(devs[b].kind, for_output) {
                        best = Some(i);
                    }
                },
            }
        }
        i += 1;
    }
    match best {
        None => {
            proof {
                if exists|b: int| ranks_first(devs@, b, for_output) {
                    let b = choose|b: int| ranks_first(devs@, b, for_output);
                    assert(eligible(devs@[b], for_output));
                }
            }
            None
        },
        Some(b) => {
            proof {
                assert forall|j: int| 0 <= j < devs@.len() && #[trigger] eligible(devs@[j], for_output) implies {
                    ||| pick_rank(devs@[b as int].kind, for_output) < pick_rank(devs@[j].kind, for_output)
                    ||| pick_rank(devs@[b as int].kind, for_output) == pick_rank(devs@[j].kind, for_output)
                        && (j == b || lex_lt(devs@[b as int].id@, devs@[j].id@))
                } by {
                    if b < j {
                        assert(lex_lt(devs@[b as int].key(), devs@[j].key()));
                    }
                }
                assert(ranks_first(devs@, b as int, for_output));
                let c = choose|c: int| ranks_first(devs@, c, for_output);
                lemma_ranks_first_unique(devs@, b as int, c, for_output);
            }
            Some(devs[b].id.clone())
        },
    }
}

// ───────────────────────── phase 4: device states ─────────────────────────

/// Defaults are active; every other device is available.
pub open spec fn state_for(id: Seq<char>, out: Option<String>, inp: Option<String>) -> DeviceState {
    if (out matches Some(o) && o@ == id) || (inp matches Some(i) && i@ == id) {
        DeviceState::Active
    } else {
        DeviceState::Available
    }
}

fn is_default(id: &String, d: &Option<String>) -> (r: bool)
    ensures
        r == (d matches Some(o) && o@ == id@),
{
    match d {
        Some(o) => *o == *id,
        None => false,
    }
}

/// Set every device's state from the defaults.
pub fn mark_states(cur: &mut Vec<Device>, out: &Option<String>, inp: &Option<String>)
    requires
        keys_sorted(old(cur)@),
    ensures
        final(cur)@.len() == old(cur)@.len(),
        forall|k: int| 0 <= k < final(cur)@.len() ==> #[trigger] final(cur)@[k] == (Device {
            state: state_for(old(cur)@[k].id@, *out, *inp),
            ..old(cur)@[k]
        }),
        keys_sorted(final(cur)@),
{
    let ghost pre = cur@;
    let mut i: usize = 0;
    while i < cur.len()
        invariant
            i <= cur@.len(),
            cur@.len() == pre.len(),
            forall|k: int| 0 <= k < i ==> #[trigger] cur@[k] == (Device { state: state_for(pre[k].id@, *out, *inp), ..pre[k] }),
            forall|k: int| i <= k < cur@.len() ==> #[trigger] cur@[k] == pre[k],
        decreases cur@.len() - i,
    {
        let active = is_default(&cur[i].id, out) || is_default(&cur[i].id, inp);
        let mut d = cur.remove(i);
        d.state = if active {
            DeviceState::Active
        } else {
            DeviceState::Available
        };
        cur.insert(i, d);
        i += 1;
    }
    proof {
        assert forall|a: int, b: int| 0 <= a < b < cur@.len() implies lex_lt(#[trigger] cur@[a].key(), #[trigger] cur@[b].key()) by {
            assert(lex_lt(pre[a].key(), pre[b].key()));
        }
    }
}

} // verus!
