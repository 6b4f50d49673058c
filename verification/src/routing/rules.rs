//! Routing rule definitions and the glob matcher used by rule conditions.

use vstd::prelude::*;

use crate::text::{chars_of, to_lowercase, unicode_lowercase};

verus! {

/// What fires a rule.
#[derive(Debug, Clone, Copy, PartialEq, Eq, Structural)]
pub enum Trigger {
    DeviceAdded,
    DeviceRemoved,
    StreamAdded,
    ProfileChanged,
}

/// The contents of a rules file: rules in file order.
pub struct RuleFile {
    pub rule: Vec<Rule>,
}

pub struct Rule {
    /// Unique name, used in logs.
    pub name: String,
    pub when: Trigger,
    /// Conditions (the `match` table of the rules file).
    pub conditions: RuleMatch,
    /// Actions, executed in order.
    pub action: Vec<ActionSpec>,
    /// Stop rule evaluation after this rule fires.
    pub stop: bool,
    pub enabled: bool,
}

/// Default of a rule's `enabled` flag.
pub fn default_true() -> (b: bool)
    ensures
        b,
{
    true
}

/// Conditions — all present patterns must match (AND). `*`/`?` globs,
/// case-insensitive. Empty = matches anything.
pub struct RuleMatch {
    /// Device kind: "speakers", "headset", "hdmi", "usb", "microphone", …
    pub kind: Option<String>,
    /// Bus: "internal", "usb", "bluetooth", "hdmi", "virtual"
    pub bus: Option<String>,
    /// Human-readable device name, e.g. "HDAIntel*"
    pub name: Option<String>,
    /// Device id, e.g. "alsa:hw:1,0"
    pub id: Option<String>,
    /// Stream application name (stream triggers), e.g. "mitos-*"
    pub application: Option<String>,
    /// Current profile at trigger time, e.g. "bluetooth-*"
    pub profile: Option<String>,
}

impl Default for RuleMatch {
    fn default() -> (m: Self)
        ensures
            m.kind is None && m.bus is None && m.name is None,
            m.id is None && m.application is None && m.profile is None,
    {
        RuleMatch { kind: None, bus: None, name: None, id: None, application: None, profile: None }
    }
}

pub enum ActionSpec {
    SetDefaultOutput {
        /// "trigger" (the triggering device) or a literal device id.
        target: String,
        /// Remember the previous default for `restore-output`.
        remember: bool,
    },
    SetDefaultInput { target: String },
    SetProfile { profile: String },
    MoveStream {
        /// Destination device id.
        to: String,
    },
    RestoreOutput,
    RestoreInput,
}

/// A pattern character accepts a text character: `?` accepts any.
pub open spec fn accepts(pc: char, tc: char) -> bool {
    pc == '?' || pc == tc
}

/// Glob semantics: `p[i..]` matches `t[j..]`, with `*` matching any run of
/// characters (also empty) and `?` any single character.
pub open spec fn glob_from(p: Seq<char>, t: Seq<char>, i: int, j: int) -> bool
    decreases p.len() - i, t.len() - j,
    when 0 <= i <= p.len() && 0 <= j <= t.len()
{
    if i == p.len() {
        j == t.len()
    } else if p[i] == '*' {
        glob_from(p, t, i + 1, j) || (j < t.len() && glob_from(p, t, i, j + 1))
    } else {
        j < t.len() && accepts(p[i], t[j]) && glob_from(p, t, i + 1, j + 1)
    }
}

/// The whole of `t` matches the whole of `p`.
pub open spec fn glob_matches(p: Seq<char>, t: Seq<char>) -> bool {
    glob_from(p, t, 0, 0)
}

/// All characters of `p` from `i` on are `*`.
pub open spec fn only_stars_from(p: Seq<char>, i: int) -> bool {
    forall|k: int| i <= k < p.len() ==> p[k] == '*'
}

/// The outcome of the single-backtrack-point matcher: a `*` in the pattern
/// is noted as the backtrack point and first swallows nothing; literal
/// characters are consumed next; on a mismatch the matcher returns to the
/// last `*` noted and lets it swallow one more text character.
spec fn glob_scan(p: Seq<char>, t: Seq<char>, pi: int, ti: int, star: Option<int>, st: int) -> bool
    decreases t.len() - st, t.len() - ti, p.len() - pi,
    when 0 <= pi <= p.len() && 0 <= st <= ti <= t.len()
        && (star matches Some(s) ==> 0 <= s < pi)
{
    if ti < t.len() {
        if pi < p.len() && p[pi] == '*' {
            glob_scan(p, t, pi + 1, ti, Some(pi), ti)
        } else if pi < p.len() && accepts(p[pi], t[ti]) {
            glob_scan(p, t, pi + 1, ti + 1, star, st)
        } else if star is Some {
            glob_scan(p, t, star->0 + 1, st + 1, star, st + 1)
        } else {
            false
        }
    } else {
        only_stars_from(p, pi)
    }
}

/// `p[a..a+len]` holds no `*` and accepts `t[b..b+len]` character by character.
pub open spec fn literal_run(p: Seq<char>, t: Seq<char>, a: int, b: int, len: int) -> bool {
    &&& 0 <= a && a + len <= p.len()
    &&& 0 <= b && b + len <= t.len()
    &&& forall|k: int| 0 <= k < len ==> #[trigger] literal_at(p, t, a + k, b + k)
}

/// Pattern position `i` is a literal (not `*`) accepting text position `j`.
pub open spec fn literal_at(p: Seq<char>, t: Seq<char>, i: int, j: int) -> bool {
    p[i] != '*' && accepts(p[i], t[j])
}

proof fn lemma_end_of_text(p: Seq<char>, t: Seq<char>, i: int)
    requires
        0 <= i <= p.len(),
    ensures
        glob_from(p, t, i, t.len() as int) == only_stars_from(p, i),
    decreases p.len() - i,
{
    if i < p.len() {
        lemma_end_of_text(p, t, i + 1);
    }
}

proof fn lemma_star(p: Seq<char>, t: Seq<char>, i: int, j: int)
    requires
        0 <= i < p.len(),
        0 <= j <= t.len(),
        p[i] == '*',
    ensures
        glob_from(p, t, i, j) == (exists|k: int| j <= k <= t.len() && #[trigger] glob_from(p, t, i + 1, k)),
    decreases t.len() - j,
{
    if j < t.len() {
        lemma_star(p, t, i, j + 1);
        if glob_from(p, t, i, j) {
            if !glob_from(p, t, i + 1, j) {
                let k = choose|k: int| j + 1 <= k <= t.len() && #[trigger] glob_from(p, t, i + 1, k);
                assert(j <= k <= t.len() && glob_from(p, t, i + 1, k));
            }
        }
        if exists|k: int| j <= k <= t.len() && #[trigger] glob_from(p, t, i + 1, k) {
            let k = choose|k: int| j <= k <= t.len() && #[trigger] glob_from(p, t, i + 1, k);
            if k > j {
                assert(j + 1 <= k <= t.len() && glob_from(p, t, i + 1, k));
            }
        }
    } else {
        if glob_from(p, t, i + 1, j) {
            assert(j <= j <= t.len() && glob_from(p, t, i + 1, j));
        }
    }
}

/// A literal run can be stepped over in both directions.
proof fn lemma_literal_run(p: Seq<char>, t: Seq<char>, a: int, b: int, len: int)
    requires
        0 <= len,
        literal_run(p, t, a, b, len),
    ensures
        glob_from(p, t, a, b) == glob_from(p, t, a + len, b + len),
    decreases len,
{
    if len > 0 {
        assert(literal_at(p, t, a + 0, b + 0));
        assert forall|k: int| 0 <= k < len - 1 implies #[trigger] literal_at(p, t, (a + 1) + k, (b + 1) + k) by {
            assert(literal_at(p, t, a + (k + 1), b + (k + 1)));
        }
        lemma_literal_run(p, t, a + 1, b + 1, len - 1);
    }
}

/// A `*`-free stretch of the pattern consumes exactly its own length of text.
proof fn lemma_starless_forward(p: Seq<char>, t: Seq<char>, a: int, b: int, len: int)
    requires
        0 <= len,
        0 <= a,
        a + len <= p.len(),
        0 <= b <= t.len(),
        forall|k: int| a <= k < a + len ==> p[k] != '*',
        glob_from(p, t, a, b),
    ensures
        b + len <= t.len(),
        literal_run(p, t, a, b, len),
        glob_from(p, t, a + len, b + len),
    decreases len,
{
    if len > 0 {
        assert(p[a] != '*');
        lemma_starless_forward(p, t, a + 1, b + 1, len - 1);
        assert forall|k: int| 0 <= k < len implies #[trigger] literal_at(p, t, a + k, b + k) by {
            if k > 0 {
                assert(literal_at(p, t, (a + 1) + (k - 1), (b + 1) + (k - 1)));
            }
        }
    }
}

proof fn lemma_run_starless(p: Seq<char>, t: Seq<char>, a: int, b: int, len: int)
    requires
        literal_run(p, t, a, b, len),
    ensures
        forall|k: int| a <= k < a + len ==> p[k] != '*',
{
    assert forall|k: int| a <= k < a + len implies p[k] != '*' by {
        assert(literal_at(p, t, a + (k - a), b + (k - a)));
    }
}

/// What the scan state knows about the whole match.
spec fn scan_invariant(p: Seq<char>, t: Seq<char>, pi: int, ti: int, star: Option<int>, st: int) -> bool {
    &&& 0 <= pi <= p.len()
    &&& 0 <= st <= ti <= t.len()
    &&& match star {
        None => st == 0 && glob_matches(p, t) == glob_from(p, t, pi, ti),
        Some(s) => {
            &&& 0 <= s < pi
            &&& p[s] == '*'
            &&& pi - (s + 1) == ti - st
            &&& literal_run(p, t, s + 1, st, ti - st)
            &&& glob_matches(p, t) == (exists|k: int| st <= k <= t.len() && #[trigger] glob_from(p, t, s + 1, k))
        },
    }
}

proof fn lemma_scan_agrees(p: Seq<char>, t: Seq<char>, pi: int, ti: int, star: Option<int>, st: int)
    requires
        scan_invariant(p, t, pi, ti, star, st),
    ensures
        glob_scan(p, t, pi, ti, star, st) == glob_matches(p, t),
    decreases t.len() - st, t.len() - ti, p.len() - pi,
{
    if ti < t.len() {
        if pi < p.len() && p[pi] == '*' {
            lemma_star(p, t, pi, ti);
            match star {
                None => {}
                Some(s) => {
                    let len = ti - st;
                    lemma_literal_run(p, t, s + 1, st, len);
                    if glob_matches(p, t) {
                        let k = choose|k: int| st <= k <= t.len() && #[trigger] glob_from(p, t, s + 1, k);
                        lemma_run_starless(p, t, s + 1, st, len);
                        lemma_starless_forward(p, t, s + 1, k, len);
                        lemma_star(p, t, pi, k + len);
                        let k2 = choose|k2: int| k + len <= k2 <= t.len() && #[trigger] glob_from(p, t, pi + 1, k2);
                        assert(ti <= k2 <= t.len() && glob_from(p, t, pi + 1, k2));
                    }
                    if exists|k: int| ti <= k <= t.len() && #[trigger] glob_from(p, t, pi + 1, k) {
                        assert(st <= st <= t.len() && glob_from(p, t, s + 1, st));
                    }
                }
            }
            lemma_scan_agrees(p, t, pi + 1, ti, Some(pi), ti);
        } else if pi < p.len() && accepts(p[pi], t[ti]) {
            assert(p[pi] != '*');
            match star {
                None => {}
                Some(s) => {
                    assert forall|k: int| 0 <= k < ti + 1 - st implies #[trigger] literal_at(p, t, (s + 1) + k, st + k) by {
                        if k < ti - st {
                            assert(literal_at(p, t, (s + 1) + k, st + k));
                        }
                    }
                }
            }
            lemma_scan_agrees(p, t, pi + 1, ti + 1, star, st);
        } else if star is Some {
            let s = star->0;
            let len = ti - st;
            lemma_literal_run(p, t, s + 1, st, len);
            assert(!glob_from(p, t, pi, ti));
            if glob_matches(p, t) {
                let k = choose|k: int| st <= k <= t.len() && #[trigger] glob_from(p, t, s + 1, k);
                assert(k != st);
                assert(st + 1 <= k <= t.len() && glob_from(p, t, s + 1, k));
            }
            if exists|k: int| st + 1 <= k <= t.len() && #[trigger] glob_from(p, t, s + 1, k) {
                let k = choose|k: int| st + 1 <= k <= t.len() && #[trigger] glob_from(p, t, s + 1, k);
                assert(st <= k <= t.len() && glob_from(p, t, s + 1, k));
            }
            lemma_scan_agrees(p, t, s + 1, st + 1, star, st + 1);
        } else {
            assert(!glob_from(p, t, pi, ti));
        }
    } else {
        lemma_end_of_text(p, t, pi);
        match star {
            None => {}
            Some(s) => {
                let len = ti - st;
                lemma_literal_run(p, t, s + 1, st, len);
                if glob_matches(p, t) {
                    let k = choose|k: int| st <= k <= t.len() && #[trigger] glob_from(p, t, s + 1, k);
                    lemma_run_starless(p, t, s + 1, st, len);
                    lemma_starless_forward(p, t, s + 1, k, len);
                    assert(k == st);
                }
                if only_stars_from(p, pi) {
                    assert(st <= st <= t.len() && glob_from(p, t, s + 1, st));
                }
            }
        }
    }
}

/// Glob match supporting `*` and `?`.
pub fn glob_match(p: &[char], t: &[char]) -> (r: bool)
    ensures
        r == glob_matches(p@, t@),
{
    let mut pi: usize = 0;
    let mut ti: usize = 0;
    let mut star_p: usize = usize::MAX;
    let mut star_t: usize = 0;
    let ghost star: Option<int> = None;
    while ti < t.len()
        invariant
            pi <= p.len(),
            star_t <= ti <= t.len(),
            star_p == usize::MAX <==> star is None,
            star matches Some(s) ==> s == star_p && star_p < pi,
            star is None ==> star_t == 0,
            glob_scan(p@, t@, pi as int, ti as int, star, star_t as int) == glob_scan(p@, t@, 0, 0, None, 0),
        decreases t.len() - star_t, t.len() - ti, p.len() - pi,
    {
        if pi < p.len() && p[pi] == '*' {
            star_p = pi;
            pi += 1;
            star_t = ti;
            proof {
                star = Some(star_p as int);
            }
        } else if pi < p.len() && (p[pi] == '?' || p[pi] == t[ti]) {
            pi += 1;
            ti += 1;
        } else if star_p != usize::MAX {
            pi = star_p + 1;
            star_t += 1;
            ti = star_t;
        } else {
            assert(!glob_scan(p@, t@, pi as int, ti as int, star, star_t as int));
            proof {
                lemma_scan_agrees(p@, t@, 0, 0, None, 0);
            }
            return false;
        }
    }
    while pi < p.len() && p[pi] == '*'
        invariant
            pi <= p.len(),
            only_stars_from(p@, pi as int) == glob_scan(p@, t@, 0, 0, None, 0),
        decreases p.len() - pi,
    {
        pi += 1;
    }
    proof {
        lemma_scan_agrees(p@, t@, 0, 0, None, 0);
    }
    pi == p.len()
}

/// Characters of `p[i..]` other than `*`: each takes one text character.
pub open spec fn literal_count(p: Seq<char>, i: int) -> nat
    decreases p.len() - i,
{
    if 0 <= i < p.len() {
        if p[i] == '*' {
            literal_count(p, i + 1)
        } else {
            1 + literal_count(p, i + 1)
        }
    } else {
        0
    }
}

proof fn lemma_self_from(p: Seq<char>, i: int)
    requires
        0 <= i <= p.len(),
    ensures
        glob_from(p, p, i, i),
    decreases p.len() - i,
{
    if i < p.len() {
        lemma_self_from(p, i + 1);
        if p[i] == '*' {
            assert(glob_from(p, p, i, i + 1));
        }
    }
}

/// Every pattern matches its own text.
pub proof fn law_glob_matches_itself(p: Seq<char>)
    ensures
        glob_matches(p, p),
{
    lemma_self_from(p, 0);
}

/// The pattern `*` matches every text.
pub proof fn law_star_matches_everything(t: Seq<char>)
    ensures
        glob_matches(seq!['*'], t),
{
    let p = seq!['*'];
    lemma_star(p, t, 0, 0);
    assert(glob_from(p, t, 1, t.len() as int));
    assert(0 <= t.len() <= t.len() && glob_from(p, t, 1, t.len() as int));
}

/// The empty pattern matches the empty text and nothing else.
pub proof fn law_empty_pattern(t: Seq<char>)
    ensures
        glob_matches(Seq::<char>::empty(), t) == (t.len() == 0),
{
}

proof fn lemma_length_from(p: Seq<char>, t: Seq<char>, i: int, j: int)
    requires
        0 <= i <= p.len(),
        0 <= j <= t.len(),
        glob_from(p, t, i, j),
    ensures
        t.len() - j >= literal_count(p, i),
    decreases p.len() - i, t.len() - j,
{
    if i < p.len() {
        if p[i] == '*' {
            if glob_from(p, t, i + 1, j) {
                lemma_length_from(p, t, i + 1, j);
            } else {
                lemma_length_from(p, t, i, j + 1);
            }
        } else {
            lemma_length_from(p, t, i + 1, j + 1);
        }
    }
}

/// A matched text has at least one character for each non-`*` pattern character.
pub proof fn law_match_length(p: Seq<char>, t: Seq<char>)
    requires
        glob_matches(p, t),
    ensures
        t.len() >= literal_count(p, 0),
{
    lemma_length_from(p, t, 0, 0);
}

proof fn lemma_plain_from(p: Seq<char>, t: Seq<char>, i: int, j: int)
    requires
        0 <= i <= p.len(),
        0 <= j <= t.len(),
        forall|k: int| 0 <= k < p.len() ==> p[k] != '*' && p[k] != '?',
    ensures
        glob_from(p, t, i, j) == (p.subrange(i, p.len() as int) == t.subrange(j, t.len() as int)),
    decreases p.len() - i,
{
    let ps = p.subrange(i, p.len() as int);
    let ts = t.subrange(j, t.len() as int);
    if i == p.len() {
        if j == t.len() {
            assert(ps =~= ts);
        } else {
            assert(ps.len() != ts.len());
        }
    } else if j == t.len() {
        assert(ps.len() != ts.len());
    } else {
        lemma_plain_from(p, t, i + 1, j + 1);
        let ps1 = p.subrange(i + 1, p.len() as int);
        let ts1 = t.subrange(j + 1, t.len() as int);
        assert(ps1 =~= ps.subrange(1, ps.len() as int));
        assert(ts1 =~= ts.subrange(1, ts.len() as int));
        if ps == ts {
            assert(ps[0] == ts[0]);
        }
        if p[i] == t[j] && ps1 == ts1 {
            assert forall|k: int| 0 <= k < ps.len() implies ps[k] == ts[k] by {
                if k > 0 {
                    assert(ps[k] == ps1[k - 1]);
                    assert(ts[k] == ts1[k - 1]);
                }
            }
            assert(ps =~= ts);
        }
    }
}

/// A pattern without `*` and `?` matches exactly the text equal to it.
pub proof fn law_plain_pattern(p: Seq<char>, t: Seq<char>)
    requires
        forall|k: int| 0 <= k < p.len() ==> p[k] != '*' && p[k] != '?',
    ensures
        glob_matches(p, t) == (p == t),
{
    lemma_plain_from(p, t, 0, 0);
    assert(p.subrange(0, p.len() as int) =~= p);
    assert(t.subrange(0, t.len() as int) =~= t);
}

} // verus!

verus! {

/// Case-insensitive glob match: both sides are lower-cased first.
pub open spec fn glob_ci(pattern: Seq<char>, text: Seq<char>) -> bool {
    glob_matches(unicode_lowercase(pattern), unicode_lowercase(text))
}

/// Glob match after lower-casing pattern and text.
pub fn glob_match_ci(pattern: &str, text: &str) -> (r: bool)
    ensures
        r == glob_ci(pattern@, text@),
{
    let lp = to_lowercase(pattern);
    let lt = to_lowercase(text);
    let p = chars_of(lp.as_str());
    let t = chars_of(lt.as_str());
    glob_match(p.as_slice(), t.as_slice())
}

} // verus!
