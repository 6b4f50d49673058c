//! Output sink lifecycle: one output device + mixing thread per target
//! device. Sinks are opened lazily for devices that live streams target and
//! closed when their device vanishes or nothing has targeted them for a
//! while. This module decides; the caller opens and stops the sinks.

use vstd::prelude::*;

use crate::keyed::{has_key, key_map, keys_sorted, lemma_key_map_at, lemma_key_map_insert, lemma_key_map_len, position, upsert, Keyed};
use crate::text::{lemma_lex_irreflexive, lemma_lex_transitive, lex_lt, str_eq};

verus! {

/// Close a sink after this long with no streams targeting it.
pub const IDLE_CLOSE_MS: u64 = 5000;
/// Minimum delay between open attempts for the same device (busy, etc.).
pub const OPEN_RETRY_MS: u64 = 2000;

/// Milliseconds from `then` to `now` on a monotonic clock (none if `now`
/// is not later).
pub open spec fn elapsed(now: u64, then: u64) -> int {
    if now >= then {
        now - then
    } else {
        0
    }
}

/// The characters of each string.
pub open spec fn names(v: Seq<String>) -> Seq<Seq<char>> {
    v.map_values(|s: String| s@)
}

/// Whether one of `v` equals `s`.
pub fn contains_name(v: &Vec<String>, s: &str) -> (r: bool)
    ensures
        r == names(v@).contains(s@),
{
    let mut i: usize = 0;
    while i < v.len()
        invariant
            i <= v@.len(),
            forall|j: int| 0 <= j < i ==> v@[j]@ != s@,
        decreases v@.len() - i,
    {
        if str_eq(v[i].as_str(), s) {
            assert(names(v@)[i as int] == s@);
            return true;
        }
        i += 1;
    }
    proof {
        if names(v@).contains(s@) {
            let j = choose|j: int| 0 <= j < names(v@).len() && names(v@)[j] == s@;
            assert(v@[j]@ == s@);
        }
    }
    false
}

/// A device id with a time (milliseconds on a monotonic clock).
pub struct Stamp {
    pub device: String,
    pub at_ms: u64,
}

impl View for Stamp {
    type V = u64;

    open spec fn view(&self) -> u64 {
        self.at_ms
    }
}

impl Keyed for Stamp {
    open spec fn key(&self) -> Seq<char> {
        self.device@
    }

    fn key_str(&self) -> (r: &str) {
        self.device.as_str()
    }
}

/// A sink stays open while its device is present and it is targeted or
/// has been unused for less than `IDLE_CLOSE_MS`.
pub open spec fn sink_kept(
    sinks: Map<Seq<char>, u64>,
    d: Seq<char>,
    referenced: Seq<Seq<char>>,
    present: Seq<Seq<char>>,
    now: u64,
) -> bool {
    present.contains(d) && (referenced.contains(d) || elapsed(now, sinks[d]) < IDLE_CLOSE_MS)
}

/// A sink is opened for a targeted, present device that has none, unless
/// an attempt for it was made less than `OPEN_RETRY_MS` ago.
pub open spec fn sink_wanted(
    sinks: Map<Seq<char>, u64>,
    attempts: Map<Seq<char>, u64>,
    d: Seq<char>,
    referenced: Seq<Seq<char>>,
    present: Seq<Seq<char>>,
    now: u64,
) -> bool {
    &&& referenced.contains(d)
    &&& !sinks.contains_key(d)
    &&& present.contains(d)
    &&& (!attempts.contains_key(d) || elapsed(now, attempts[d]) >= OPEN_RETRY_MS)
}

/// The sinks after a pass: the kept ones, targeted ones marked used now.
pub open spec fn kept_sinks(
    sinks: Map<Seq<char>, u64>,
    referenced: Seq<Seq<char>>,
    present: Seq<Seq<char>>,
    now: u64,
) -> Map<Seq<char>, u64> {
    Map::new(
        |d: Seq<char>| sinks.contains_key(d) && sink_kept(sinks, d, referenced, present, now),
        |d: Seq<char>|
            if referenced.contains(d) {
                now
            } else {
                sinks[d]
            },
    )
}

/// The open attempts after a pass: each device tried now stamped now.
pub open spec fn retried(attempts: Map<Seq<char>, u64>, opened: Seq<Seq<char>>, now: u64) -> Map<
    Seq<char>,
    u64,
> {
    Map::new(
        |d: Seq<char>| attempts.contains_key(d) || opened.contains(d),
        |d: Seq<char>|
            if opened.contains(d) {
                now
            } else {
                attempts[d]
            },
    )
}

/// Phase one of a pass over sinks sorted by device: the kept sinks (marked
/// used now where targeted) and, in device order, the devices to close.
fn sweep(sinks: &Vec<Stamp>, referenced: &Vec<String>, present: &Vec<String>, now_ms: u64) -> (r: (
    Vec<Stamp>,
    Vec<String>,
))
    requires
        keys_sorted(sinks@),
    ensures
        keys_sorted(r.0@),
        key_map(r.0@) == kept_sinks(key_map(sinks@), names(referenced@), names(present@), now_ms),
        forall|d: Seq<char>| #[trigger] names(r.1@).contains(d) <==> (key_map(sinks@).contains_key(d)
            && !sink_kept(key_map(sinks@), d, names(referenced@), names(present@), now_ms)),
        names(r.1@).no_duplicates(),
        forall|a: int, b: int| 0 <= a < b < r.1@.len() ==> lex_lt(#[trigger] r.1@[a]@, #[trigger] r.1@[b]@),
{
    let ghost m = key_map(sinks@);
    let ghost rs = names(referenced@);
    let ghost ps = names(present@);
    let mut kept: Vec<Stamp> = Vec::new();
    let mut close: Vec<String> = Vec::new();
    let mut i: usize = 0;
    while i < sinks.len()
        invariant
            keys_sorted(sinks@),
            m == key_map(sinks@),
            rs == names(referenced@),
            ps == names(present@),
            i <= sinks@.len(),
            keys_sorted(kept@),
            i < sinks@.len() ==> forall|j: int| 0 <= j < kept@.len() ==> lex_lt(#[trigger] kept@[j].key(), sinks@[i as int].key()),
            forall|j: int| #![trigger kept@[j]] 0 <= j < kept@.len() ==> exists|k: int| 0 <= k < i && #[trigger] sinks@[k].key() == kept@[j].key(),
            forall|j: int| 0 <= j < kept@.len() ==> sink_kept(m, #[trigger] kept@[j].key(), rs, ps, now_ms)
                && kept@[j]@ == (if rs.contains(kept@[j].key()) { now_ms } else { m[kept@[j].key()] }),
            forall|k: int| 0 <= k < i && sink_kept(m, #[trigger] sinks@[k].key(), rs, ps, now_ms) ==> has_key(kept@, sinks@[k].key()),
            forall|a: int, b: int| 0 <= a < b < close@.len() ==> lex_lt(#[trigger] close@[a]@, #[trigger] close@[b]@),
            i < sinks@.len() ==> forall|c: int| 0 <= c < close@.len() ==> lex_lt(#[trigger] close@[c]@, sinks@[i as int].key()),
            forall|c: int| #![trigger close@[c]] 0 <= c < close@.len() ==> exists|k: int| 0 <= k < i && #[trigger] sinks@[k].key() == close@[c]@,
            forall|c: int| 0 <= c < close@.len() ==> !sink_kept(m, #[trigger] close@[c]@, rs, ps, now_ms),
            forall|k: int| 0 <= k < i && !sink_kept(m, #[trigger] sinks@[k].key(), rs, ps, now_ms) ==> names(close@).contains(sinks@[k].key()),
        decreases sinks@.len() - i,
    {
        let d = &sinks[i].device;
        let at = sinks[i].at_ms;
        let targeted = contains_name(referenced, d.as_str());
        let here = contains_name(present, d.as_str());
        let idle = now_ms >= at && now_ms - at >= IDLE_CLOSE_MS;
        proof {
            lemma_key_map_at(sinks@, i as int);
            if i + 1 < sinks@.len() {
                assert(lex_lt(sinks@[i as int].key(), sinks@[i + 1].key()));
            }
        }
        if here && (targeted || !idle) {
            let x = Stamp { device: d.clone(), at_ms: if targeted { now_ms } else { at } };
            proof {
                assert forall|j: int| 0 <= j < kept@.len() implies #[trigger] kept@[j].key() != x.key() by {
                    lemma_lex_irreflexive(x.key());
                }
                assert forall|j: int| 0 <= j < kept@.len() implies lex_lt(#[trigger] kept@[j].key(), x.key()) by {}
            }
            let ghost before_kept = kept@;
            kept.push(x);
            proof {
                assert forall|a: int, b: int| 0 <= a < b < kept@.len() implies lex_lt(#[trigger] kept@[a].key(), #[trigger] kept@[b].key()) by {
                    if b == kept@.len() - 1 {
                        assert(kept@[b].key() == x.key());
                    }
                }
                if i + 1 < sinks@.len() {
                    assert forall|j: int| 0 <= j < kept@.len() implies lex_lt(#[trigger] kept@[j].key(), sinks@[i + 1].key()) by {
                        if j < kept@.len() - 1 {
                            lemma_lex_transitive(kept@[j].key(), sinks@[i as int].key(), sinks@[i + 1].key());
                        }
                    }
                }
                assert forall|j: int| #![trigger kept@[j]] 0 <= j < kept@.len() implies exists|k: int| 0 <= k < i + 1 && #[trigger] sinks@[k].key() == kept@[j].key() by {
                    if j == kept@.len() - 1 {
                        assert(sinks@[i as int].key() == kept@[j].key());
                    } else {
                        let k = choose|k: int| 0 <= k < i && #[trigger] sinks@[k].key() == kept@[j].key();
                        assert(sinks@[k].key() == kept@[j].key());
                    }
                }
                assert forall|k: int| 0 <= k < i + 1 && sink_kept(m, #[trigger] sinks@[k].key(), rs, ps, now_ms) implies has_key(kept@, sinks@[k].key()) by {
                    if k == i {
                        assert(kept@[kept@.len() - 1].key() == sinks@[k].key());
                    } else {
                        assert(has_key(before_kept, sinks@[k].key()));
                        let j = choose|j: int| 0 <= j < before_kept.len() && #[trigger] before_kept[j].key() == sinks@[k].key();
                        assert(kept@[j] == before_kept[j]);
                    }
                }
                assert forall|k: int| 0 <= k < i + 1 && !sink_kept(m, #[trigger] sinks@[k].key(), rs, ps, now_ms) implies names(close@).contains(sinks@[k].key()) by {}
            }
        } else {
            let c = d.clone();
            let ghost before = close@;
            close.push(c);
            proof {
                assert(names(close@) =~= names(before).push(c@));
                assert forall|a: int, b: int| 0 <= a < b < close@.len() implies lex_lt(#[trigger] close@[a]@, #[trigger] close@[b]@) by {
                    if b == close@.len() - 1 {
                        assert(close@[a] == before[a]);
                    }
                }
                if i + 1 < sinks@.len() {
                    assert forall|c2: int| 0 <= c2 < close@.len() implies lex_lt(#[trigger] close@[c2]@, sinks@[i + 1].key()) by {
                        if c2 < close@.len() - 1 {
                            lemma_lex_transitive(close@[c2]@, sinks@[i as int].key(), sinks@[i + 1].key());
                        }
                    }
                }
                assert forall|c2: int| #![trigger close@[c2]] 0 <= c2 < close@.len() implies exists|k: int| 0 <= k < i + 1 && #[trigger] sinks@[k].key() == close@[c2]@ by {
                    if c2 == close@.len() - 1 {
                        assert(sinks@[i as int].key() == close@[c2]@);
                    } else {
                        assert(close@[c2] == before[c2]);
                        let k = choose|k: int| 0 <= k < i && #[trigger] sinks@[k].key() == before[c2]@;
                        assert(sinks@[k].key() == close@[c2]@);
                    }
                }
                assert forall|c2: int| 0 <= c2 < close@.len() implies !sink_kept(m, #[trigger] close@[c2]@, rs, ps, now_ms) by {
                    if c2 < close@.len() - 1 {
                        assert(close@[c2] == before[c2]);
                    }
                }
                assert forall|k: int| 0 <= k < i + 1 && !sink_kept(m, #[trigger] sinks@[k].key(), rs, ps, now_ms) implies names(close@).contains(sinks@[k].key()) by {
                    if k == i {
                        assert(names(close@)[close@.len() - 1] == sinks@[k].key());
                    } else {
                        let c2 = choose|c2: int| 0 <= c2 < names(before).len() && names(before)[c2] == sinks@[k].key();
                        assert(names(close@)[c2] == sinks@[k].key());
                    }
                }
            }
        }
        i += 1;
    }
    proof {
        let want = kept_sinks(m, rs, ps, now_ms);
        assert forall|d: Seq<char>| key_map(kept@).contains_key(d) <==> want.contains_key(d) by {
            if has_key(kept@, d) {
                let j = choose|j: int| 0 <= j < kept@.len() && #[trigger] kept@[j].key() == d;
                let k = choose|k: int| 0 <= k < i && #[trigger] sinks@[k].key() == kept@[j].key();
                assert(has_key(sinks@, d));
            }
            if m.contains_key(d) && sink_kept(m, d, rs, ps, now_ms) {
                let k = choose|k: int| 0 <= k < sinks@.len() && #[trigger] sinks@[k].key() == d;
                assert(sink_kept(m, sinks@[k].key(), rs, ps, now_ms));
            }
        }
        assert forall|d: Seq<char>| #[trigger] key_map(kept@).contains_key(d) implies key_map(kept@)[d] == want[d] by {
            let j = choose|j: int| 0 <= j < kept@.len() && #[trigger] kept@[j].key() == d;
            lemma_key_map_at(kept@, j);
        }
        assert(key_map(kept@) =~= want);
        assert forall|d: Seq<char>| #[trigger] names(close@).contains(d) <==> (m.contains_key(d) && !sink_kept(m, d, rs, ps, now_ms)) by {
            if names(close@).contains(d) {
                let c = choose|c: int| 0 <= c < names(close@).len() && names(close@)[c] == d;
                assert(close@[c]@ == d);
                let k = choose|k: int| 0 <= k < i && #[trigger] sinks@[k].key() == close@[c]@;
                assert(has_key(sinks@, d));
            }
            if m.contains_key(d) && !sink_kept(m, d, rs, ps, now_ms) {
                let k = choose|k: int| 0 <= k < sinks@.len() && #[trigger] sinks@[k].key() == d;
                assert(!sink_kept(m, sinks@[k].key(), rs, ps, now_ms));
            }
        }
        assert forall|a: int, b: int| 0 <= a < names(close@).len() && 0 <= b < names(close@).len() && a != b implies names(close@)[a] != names(close@)[b] by {
            lemma_lex_irreflexive(close@[a]@);
            if a < b {
                assert(lex_lt(close@[a]@, close@[b]@));
            } else {
                assert(lex_lt(close@[b]@, close@[a]@));
            }
        }
    }
    (kept, close)
}

/// Phase two of a pass: walk the targeted devices in order and open a sink
/// for each one that is wanted, stamping the attempt now.
fn choose_opens(
    sinks: &Vec<Stamp>,
    attempts: &mut Vec<Stamp>,
    referenced: &Vec<String>,
    present: &Vec<String>,
    now_ms: u64,
) -> (open: Vec<String>)
    requires
        keys_sorted(sinks@),
        keys_sorted(old(attempts)@),
    ensures
        keys_sorted(final(attempts)@),
        key_map(final(attempts)@) == retried(key_map(old(attempts)@), names(open@), now_ms),
        forall|d: Seq<char>| #[trigger] names(open@).contains(d) <==> sink_wanted(
            key_map(sinks@),
            key_map(old(attempts)@),
            d,
            names(referenced@),
            names(present@),
            now_ms,
        ),
        names(open@).no_duplicates(),
        exists|idx: Seq<int>| first_mentions(names(open@), names(referenced@), idx),
{
    broadcast use vstd::seq_lib::group_seq_properties;

    let ghost a0 = key_map(attempts@);
    let ghost sm = key_map(sinks@);
    let ghost rs = names(referenced@);
    let ghost ps = names(present@);
    let mut open: Vec<String> = Vec::new();
    let mut j: usize = 0;
    let ghost mut idx: Seq<int> = Seq::empty();
    assert(names(open@) =~= Seq::<Seq<char>>::empty());
    assert(retried(a0, names(open@), now_ms) =~= a0);
    while j < referenced.len()
        invariant
            keys_sorted(sinks@),
            sm == key_map(sinks@),
            rs == names(referenced@),
            ps == names(present@),
            j <= referenced@.len(),
            keys_sorted(attempts@),
            key_map(attempts@) == retried(a0, names(open@), now_ms),
            forall|d: Seq<char>| #[trigger] names(open@).contains(d) <==> (rs.take(j as int).contains(d)
                && sink_wanted(sm, a0, d, rs, ps, now_ms)),
            names(open@).no_duplicates(),
            first_mentions(names(open@), rs, idx),
            forall|k: int| 0 <= k < idx.len() ==> #[trigger] idx[k] < j,
        decreases referenced@.len() - j,
    {
        let d = &referenced[j];
        let ghost dv = d@;
        let ghost before = names(open@);
        assert(rs[j as int] == dv);
        assert(rs.take(j + 1) =~= rs.take(j as int).push(dv));
        let has_sink = position(sinks, d.as_str()).is_some();
        let here = contains_name(present, d.as_str());
        let mut recent = true;
        if !has_sink && here {
            recent = match position(attempts, d.as_str()) {
                Some(q) => {
                    let t = attempts[q].at_ms;
                    proof {
                        lemma_key_map_at(attempts@, q as int);
                    }
                    now_ms < t || now_ms - t < OPEN_RETRY_MS
                },
                None => false,
            };
            proof {
                let cur = key_map(attempts@);
                if before.contains(dv) {
                    assert(cur.contains_key(dv));
                    assert(cur[dv] == now_ms);
                    assert(has_key(attempts@, dv));
                    assert(recent);
                }
                if !recent {
                    assert(!before.contains(dv));
                    assert(cur.contains_key(dv) == a0.contains_key(dv));
                    if a0.contains_key(dv) {
                        assert(has_key(attempts@, dv));
                        assert(cur[dv] == a0[dv]);
                    }
                    assert(!sm.contains_key(dv));
                    assert(ps.contains(dv));
                    assert(rs.contains(dv));
                    assert(sink_wanted(sm, a0, dv, rs, ps, now_ms));
                } else if !before.contains(dv) && a0.contains_key(dv) {
                    assert(cur[dv] == a0[dv]);
                    assert(!sink_wanted(sm, a0, dv, rs, ps, now_ms));
                } else if !before.contains(dv) {
                    assert(!sink_wanted(sm, a0, dv, rs, ps, now_ms));
                }
            }
            if !recent {
                let x = Stamp { device: d.clone(), at_ms: now_ms };
                let ghost prior = key_map(attempts@);
                upsert(attempts, x);
                open.push(d.clone());
                proof {
                    assert(names(open@) =~= before.push(dv));
                    assert forall|m: int| 0 <= m < j implies rs[m] != dv by {
                        if rs[m] == dv {
                            assert(rs.take(j as int)[m] == dv);
                            assert(rs.take(j as int).contains(dv));
                        }
                    }
                    let old_idx = idx;
                    idx = idx.push(j as int);
                    assert forall|k: int| #![trigger idx[k]] 0 <= k < idx.len() implies 0 <= idx[k] < rs.len() && rs[idx[k]]
                        == names(open@)[k] && forall|m: int| 0 <= m < idx[k] ==> rs[m] != names(open@)[k] by {
                        if k < old_idx.len() {
                            assert(idx[k] == old_idx[k]);
                            assert(names(open@)[k] == before[k]);
                        }
                    }
                    assert forall|a: int, b: int| 0 <= a < b < idx.len() implies #[trigger] idx[a] < #[trigger] idx[b] by {
                        if b == idx.len() - 1 {
                            assert(idx[a] == old_idx[a]);
                        } else {
                            assert(idx[a] == old_idx[a] && idx[b] == old_idx[b]);
                        }
                    }
                    assert forall|e: Seq<char>| #[trigger] names(open@).contains(e) <==> (before.contains(e) || e == dv) by {
                        vstd::seq_lib::lemma_seq_contains_after_push(before, dv, e);
                    }
                    let want = retried(a0, names(open@), now_ms);
                    assert forall|e: Seq<char>| #[trigger] key_map(attempts@).contains_key(e) == want.contains_key(e) by {}
                    assert forall|e: Seq<char>| #[trigger] key_map(attempts@).contains_key(e) implies key_map(attempts@)[e] == want[e] by {
                        if e != dv {
                            assert(key_map(attempts@)[e] == prior[e]);
                        }
                    }
                    assert(key_map(attempts@) =~= want);
                    assert forall|e: Seq<char>| #[trigger] names(open@).contains(e) <==> (rs.take(j + 1).contains(e)
                        && sink_wanted(sm, a0, e, rs, ps, now_ms)) by {
                        vstd::seq_lib::lemma_seq_contains_after_push(rs.take(j as int), dv, e);
                    }
                    assert forall|a: int, b: int| 0 <= a < names(open@).len() && 0 <= b < names(open@).len() && a != b
                        implies names(open@)[a] != names(open@)[b] by {
                        if a == before.len() {
                            assert(before[b] == names(open@)[b]);
                        } else if b == before.len() {
                            assert(before[a] == names(open@)[a]);
                        } else {
                            assert(before[a] == names(open@)[a] && before[b] == names(open@)[b]);
                        }
                    }
                }
            }
        }
        proof {
            if recent {
                assert(names(open@) == before);
                if !has_sink && here {
                } else {
                    if has_sink {
                        assert(sm.contains_key(dv));
                    } else {
                        assert(!ps.contains(dv));
                    }
                    assert(!sink_wanted(sm, a0, dv, rs, ps, now_ms));
                }
                assert forall|e: Seq<char>| #[trigger] names(open@).contains(e) <==> (rs.take(j + 1).contains(e)
                    && sink_wanted(sm, a0, e, rs, ps, now_ms)) by {
                    vstd::seq_lib::lemma_seq_contains_after_push(rs.take(j as int), dv, e);
                }
            }
        }
        j += 1;
    }
    assert(rs.take(referenced@.len() as int) =~= rs);
    assert(first_mentions(names(open@), names(referenced@), idx));
    open
}

/// `idx` places each opened device at its first mention in `rs`, in
/// ascending order: the devices are opened in the order first named.
pub open spec fn first_mentions(opened: Seq<Seq<char>>, rs: Seq<Seq<char>>, idx: Seq<int>) -> bool {
    &&& idx.len() == opened.len()
    &&& forall|k: int| #![trigger idx[k]] 0 <= k < idx.len() ==> 0 <= idx[k] < rs.len() && rs[idx[k]] == opened[k]
        && forall|m: int| 0 <= m < idx[k] ==> rs[m] != opened[k]
    &&& forall|a: int, b: int| 0 <= a < b < idx.len() ==> #[trigger] idx[a] < #[trigger] idx[b]
}

/// What a lifecycle pass asks the caller to do.
pub struct SinkPlan {
    /// Devices to open a sink for (report success with `opened`).
    pub open: Vec<String>,
    /// Devices whose sink to stop.
    pub close: Vec<String>,
}

/// The open sinks (device → last used) and the last open attempt per device.
pub struct SinkTable {
    sinks: Vec<Stamp>,
    attempts: Vec<Stamp>,
}

impl SinkTable {
    #[verifier::type_invariant]
    spec fn wf(self) -> bool {
        keys_sorted(self.sinks@) && keys_sorted(self.attempts@)
    }

    /// Device → when its sink was last used.
    pub closed spec fn sinks(&self) -> Map<Seq<char>, u64> {
        key_map(self.sinks@)
    }

    /// Device → when a sink was last tried for it.
    pub closed spec fn attempts(&self) -> Map<Seq<char>, u64> {
        key_map(self.attempts@)
    }

    pub fn new() -> (t: Self)
        ensures
            t.sinks() == Map::<Seq<char>, u64>::empty(),
            t.attempts() == Map::<Seq<char>, u64>::empty(),
    {
        let t = SinkTable { sinks: Vec::new(), attempts: Vec::new() };
        assert(key_map(t.sinks@) =~= Map::<Seq<char>, u64>::empty());
        assert(key_map(t.attempts@) =~= Map::<Seq<char>, u64>::empty());
        t
    }

    pub fn sink_count(&self) -> (n: usize)
        ensures
            n == self.sinks().len(),
    {
        proof {
            use_type_invariant(self);
            lemma_key_map_len(self.sinks@);
        }
        self.sinks.len()
    }

    pub fn has_sink(&self, device: &str) -> (r: bool)
        ensures
            r == self.sinks().contains_key(device@),
    {
        proof {
            use_type_invariant(self);
        }
        position(&self.sinks, device).is_some()
    }

    /// A lifecycle pass (about every 500 ms) over the devices that live
    /// streams target and the devices present now: the sinks of vanished
    /// devices, and of devices untargeted for `IDLE_CLOSE_MS`, are closed;
    /// targeted sinks are marked used; targeted, present devices without a
    /// sink are opened, at most one attempt per `OPEN_RETRY_MS`. Devices to
    /// close come in ascending id order; devices to open in the order they
    /// are first named in `referenced`.
    pub fn plan(&mut self, referenced: &Vec<String>, present: &Vec<String>, now_ms: u64) -> (p: SinkPlan)
        ensures
            forall|d: Seq<char>| #[trigger] names(p.close@).contains(d) <==> (old(self).sinks().contains_key(d)
                && !sink_kept(old(self).sinks(), d, names(referenced@), names(present@), now_ms)),
            names(p.close@).no_duplicates(),
            forall|a: int, b: int| 0 <= a < b < p.close@.len() ==> lex_lt(#[trigger] p.close@[a]@, #[trigger] p.close@[b]@),
            forall|d: Seq<char>| #[trigger] names(p.open@).contains(d) <==> sink_wanted(
                old(self).sinks(),
                old(self).attempts(),
                d,
                names(referenced@),
                names(present@),
                now_ms,
            ),
            names(p.open@).no_duplicates(),
            exists|idx: Seq<int>| first_mentions(names(p.open@), names(referenced@), idx),
            final(self).sinks() == kept_sinks(old(self).sinks(), names(referenced@), names(present@), now_ms),
            final(self).attempts() == retried(old(self).attempts(), names(p.open@), now_ms),
    {
        proof {
            use_type_invariant(&*self);
        }
        let mut attempts: Vec<Stamp> = Vec::new();
        std::mem::swap(&mut attempts, &mut self.attempts);
        let open = choose_opens(&self.sinks, &mut attempts, referenced, present, now_ms);
        let (kept, close) = sweep(&self.sinks, referenced, present, now_ms);
        self.sinks = kept;
        self.attempts = attempts;
        SinkPlan { open, close }
    }

    /// A sink for `device` was opened at `now_ms`.
    pub fn opened(&mut self, device: &str, now_ms: u64)
        ensures
            final(self).sinks() == old(self).sinks().insert(device@, now_ms),
            final(self).attempts() == old(self).attempts(),
    {
        proof {
            use_type_invariant(&*self);
        }
        let mut sinks: Vec<Stamp> = Vec::new();
        std::mem::swap(&mut sinks, &mut self.sinks);
        upsert(&mut sinks, Stamp { device: String::from_str(device), at_ms: now_ms });
        self.sinks = sinks;
    }
}

/// In one pass no device is both opened and closed; a targeted device that
/// is present keeps its sink, marked used now; a device that vanished keeps
/// no sink and gets none.
pub proof fn law_sink_pass(
    sinks: Map<Seq<char>, u64>,
    attempts: Map<Seq<char>, u64>,
    referenced: Seq<Seq<char>>,
    present: Seq<Seq<char>>,
    now: u64,
    d: Seq<char>,
)
    ensures
        !(sink_wanted(sinks, attempts, d, referenced, present, now) && sinks.contains_key(d)),
        sinks.contains_key(d) && referenced.contains(d) && present.contains(d) ==> kept_sinks(
            sinks,
            referenced,
            present,
            now,
        ).contains_key(d) && kept_sinks(sinks, referenced, present, now)[d] == now,
        !present.contains(d) ==> !kept_sinks(sinks, referenced, present, now).contains_key(d) && !sink_wanted(
            sinks,
            attempts,
            d,
            referenced,
            present,
            now,
        ),
{
}

} // verus!
