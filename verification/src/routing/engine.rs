//! Rule evaluation. Pure with respect to rules; the restore *memory*
//! (remembered previous defaults) is stateful and persisted by the manager.

use vstd::prelude::*;

use crate::devices::{bus_name, kind_name, Device};
use crate::routing::rules::{glob_ci, glob_match_ci, ActionSpec, Rule, RuleMatch, Trigger};
use crate::streams::AudioStream;
use crate::text::{eq_ignore_ascii_case, str_eq_ignore_ascii_case};

verus! {

/// Remembered defaults, persisted in `state.json`.
pub struct RoutingMemory {
    pub previous_output: Option<String>,
    pub previous_input: Option<String>,
}

impl Default for RoutingMemory {
    fn default() -> (m: Self)
        ensures
            m.previous_output is None,
            m.previous_input is None,
    {
        RoutingMemory { previous_output: None, previous_input: None }
    }
}

impl Clone for RoutingMemory {
    fn clone(&self) -> (m: Self)
        ensures
            m == *self,
    {
        RoutingMemory { previous_output: self.previous_output.clone(), previous_input: self.previous_input.clone() }
    }
}

/// Everything a trigger knows when rules are evaluated.
pub struct TriggerContext<'a> {
    pub trigger: Trigger,
    /// The device that appeared/vanished — or, for stream triggers, the
    /// stream's current device (enables device-scoped app rules).
    pub device: Option<&'a Device>,
    pub stream: Option<&'a AudioStream>,
    pub profile: &'a str,
}

/// A rule action with `target = "trigger"` resolved to a concrete device id.
pub enum ResolvedAction {
    SetDefaultOutput { id: String, remember: bool },
    SetDefaultInput { id: String },
    SetProfile { profile: String },
    MoveStream { stream_id: String, to: String },
    RestoreOutput,
    RestoreInput,
}

// ───────────────────────── what a rule means ─────────────────────────

/// An optional pattern holds of `text` (an absent pattern always holds).
pub open spec fn condition_holds(pattern: Option<String>, text: Seq<char>) -> bool {
    match pattern {
        Some(p) => glob_ci(p@, text),
        None => true,
    }
}

pub open spec fn has_device_condition(m: RuleMatch) -> bool {
    m.kind is Some || m.bus is Some || m.name is Some || m.id is Some
}

/// All present conditions hold in the trigger's context. Conditions on
/// context the trigger lacks (no stream, no device) never hold.
pub open spec fn conditions_hold(m: RuleMatch, ctx: TriggerContext) -> bool {
    &&& condition_holds(m.profile, ctx.profile@)
    &&& m.application is Some ==> (ctx.stream matches Some(s) && glob_ci(m.application->0@, s.application@))
    &&& has_device_condition(m) ==> (ctx.device matches Some(d) && {
        &&& condition_holds(m.kind, kind_name(d.kind))
        &&& condition_holds(m.bus, bus_name(d.bus))
        &&& condition_holds(m.name, d.name@)
        &&& condition_holds(m.id, d.id@)
    })
}

/// A rule fires for a context: enabled, same trigger, conditions hold.
pub open spec fn rule_fires(r: Rule, ctx: TriggerContext) -> bool {
    r.enabled && r.when == ctx.trigger && conditions_hold(r.conditions, ctx)
}

/// `"trigger"` (any ASCII case) names the triggering device.
pub open spec fn resolved_target(target: String, ctx: TriggerContext) -> Option<String> {
    if eq_ignore_ascii_case(target@, "trigger"@) {
        match ctx.device {
            Some(d) => Some(d.id),
            None => None,
        }
    } else {
        Some(target)
    }
}

/// An action with its target made concrete; `None` when the context lacks
/// what the action needs (the action is then skipped).
pub open spec fn resolved(a: ActionSpec, ctx: TriggerContext) -> Option<ResolvedAction> {
    match a {
        ActionSpec::SetDefaultOutput { target, remember } => match resolved_target(target, ctx) {
            Some(id) => Some(ResolvedAction::SetDefaultOutput { id, remember }),
            None => None,
        },
        ActionSpec::SetDefaultInput { target } => match resolved_target(target, ctx) {
            Some(id) => Some(ResolvedAction::SetDefaultInput { id }),
            None => None,
        },
        ActionSpec::SetProfile { profile } => Some(ResolvedAction::SetProfile { profile }),
        ActionSpec::MoveStream { to } => match ctx.stream {
            Some(s) => Some(ResolvedAction::MoveStream { stream_id: s.id, to }),
            None => None,
        },
        ActionSpec::RestoreOutput => Some(ResolvedAction::RestoreOutput),
        ActionSpec::RestoreInput => Some(ResolvedAction::RestoreInput),
    }
}

/// The resolved actions of a list, in order, skipping unresolvable ones.
pub open spec fn resolved_all(actions: Seq<ActionSpec>, ctx: TriggerContext) -> Seq<ResolvedAction>
    decreases actions.len(),
{
    if actions.len() == 0 {
        Seq::empty()
    } else {
        let rest = resolved_all(actions.drop_last(), ctx);
        match resolved(actions.last(), ctx) {
            Some(r) => rest.push(r),
            None => rest,
        }
    }
}

/// Actions produced by the rules from index `i` on, in file order, up to
/// and including the first firing rule marked `stop`.
pub open spec fn evaluation_from(rules: Seq<Rule>, ctx: TriggerContext, i: int) -> Seq<ResolvedAction>
    decreases rules.len() - i,
{
    if i < 0 || i >= rules.len() {
        Seq::empty()
    } else if rule_fires(rules[i], ctx) {
        resolved_all(rules[i].action@, ctx) + if rules[i].stop {
            Seq::empty()
        } else {
            evaluation_from(rules, ctx, i + 1)
        }
    } else {
        evaluation_from(rules, ctx, i + 1)
    }
}

pub open spec fn evaluation(rules: Seq<Rule>, ctx: TriggerContext) -> Seq<ResolvedAction> {
    evaluation_from(rules, ctx, 0)
}

// ───────────────────────── executable matching ─────────────────────────

fn pattern_holds(pattern: &Option<String>, text: &str) -> (r: bool)
    ensures
        r == condition_holds(*pattern, text@),
{
    match pattern {
        Some(p) => glob_match_ci(p.as_str(), text),
        None => true,
    }
}

pub fn rule_matches(m: &RuleMatch, ctx: &TriggerContext<'_>) -> (r: bool)
    ensures
        r == conditions_hold(*m, *ctx),
{
    if !pattern_holds(&m.profile, ctx.profile) {
        return false;
    }
    if let Some(pattern) = &m.application {
        match ctx.stream {
            None => return false,
            Some(stream) => {
                if !glob_match_ci(pattern.as_str(), stream.application.as_str()) {
                    return false;
                }
            },
        }
    }
    let has_device_condition = m.kind.is_some() || m.bus.is_some() || m.name.is_some() || m.id.is_some();
    if has_device_condition {
        match ctx.device {
            None => return false,
            Some(device) => {
                if !pattern_holds(&m.kind, device.kind.name()) {
                    return false;
                }
                if !pattern_holds(&m.bus, device.bus.name()) {
                    return false;
                }
                if !pattern_holds(&m.name, device.name.as_str()) {
                    return false;
                }
                if !pattern_holds(&m.id, device.id.as_str()) {
                    return false;
                }
            },
        }
    }
    true
}

pub fn resolve_target(target: &String, ctx: &TriggerContext<'_>) -> (r: Option<String>)
    ensures
        r == resolved_target(*target, *ctx),
{
    if str_eq_ignore_ascii_case(target.as_str(), "trigger") {
        match ctx.device {
            Some(d) => Some(d.id.clone()),
            None => None,
        }
    } else {
        Some(target.clone())
    }
}

pub fn resolve_action(spec: &ActionSpec, ctx: &TriggerContext<'_>) -> (r: Option<ResolvedAction>)
    ensures
        r == resolved(*spec, *ctx),
{
    match spec {
        ActionSpec::SetDefaultOutput { target, remember } => match resolve_target(target, ctx) {
            Some(id) => Some(ResolvedAction::SetDefaultOutput { id, remember: *remember }),
            None => None,
        },
        ActionSpec::SetDefaultInput { target } => match resolve_target(target, ctx) {
            Some(id) => Some(ResolvedAction::SetDefaultInput { id }),
            None => None,
        },
        ActionSpec::SetProfile { profile } => Some(ResolvedAction::SetProfile { profile: profile.clone() }),
        ActionSpec::MoveStream { to } => match ctx.stream {
            Some(s) => Some(ResolvedAction::MoveStream { stream_id: s.id.clone(), to: to.clone() }),
            None => None,
        },
        ActionSpec::RestoreOutput => Some(ResolvedAction::RestoreOutput),
        ActionSpec::RestoreInput => Some(ResolvedAction::RestoreInput),
    }
}

// ───────────────────────── the engine ─────────────────────────

pub struct RoutingEngine {
    rules: Vec<Rule>,
    memory: RoutingMemory,
}

impl RoutingEngine {
    /// The rules, in file order.
    pub closed spec fn rules(&self) -> Seq<Rule> {
        self.rules@
    }

    /// The restore memory.
    pub closed spec fn memory_state(&self) -> RoutingMemory {
        self.memory
    }

    /// An engine with the given rules and empty restore memory.
    pub fn new(rules: Vec<Rule>) -> (e: Self)
        ensures
            e.rules() == rules@,
            e.memory_state().previous_output is None,
            e.memory_state().previous_input is None,
    {
        RoutingEngine { rules, memory: RoutingMemory::default() }
    }

    /// Replace the rules (a reload); returns the new rule count.
    pub fn replace_rules(&mut self, rules: Vec<Rule>) -> (count: usize)
        ensures
            final(self).rules() == rules@,
            final(self).memory_state() == old(self).memory_state(),
            count == rules@.len(),
    {
        let count = rules.len();
        self.rules = rules;
        count
    }

    pub fn rule_count(&self) -> (n: usize)
        ensures
            n == self.rules().len(),
    {
        self.rules.len()
    }

    /// Evaluate all rules for one trigger, in file order.
    pub fn evaluate(&self, ctx: &TriggerContext<'_>) -> (out: Vec<ResolvedAction>)
        ensures
            out@ == evaluation(self.rules(), *ctx),
    {
        let mut out: Vec<ResolvedAction> = Vec::new();
        let mut i: usize = 0;
        while i < self.rules.len()
            invariant
                i <= self.rules@.len(),
                out@ + evaluation_from(self.rules@, *ctx, i as int) == evaluation(self.rules@, *ctx),
            decreases self.rules@.len() - i,
        {
            let rule = &self.rules[i];
            if !rule.enabled || rule.when != ctx.trigger {
                i += 1;
                continue;
            }
            if !rule_matches(&rule.conditions, ctx) {
                i += 1;
                continue;
            }
            let ghost before = out@;
            let mut j: usize = 0;
            while j < rule.action.len()
                invariant
                    j <= rule.action@.len(),
                    out@ == before + resolved_all(rule.action@.take(j as int), *ctx),
                decreases rule.action@.len() - j,
            {
                proof {
                    assert(rule.action@.take(j + 1).drop_last() == rule.action@.take(j as int));
                }
                match resolve_action(&rule.action[j], ctx) {
                    Some(action) => out.push(action),
                    None => {},
                }
                j += 1;
            }
            proof {
                assert(rule.action@.take(j as int) == rule.action@);
            }
            if rule.stop {
                proof {
                    assert(out@ == before + evaluation_from(self.rules@, *ctx, i as int));
                }
                return out;
            }
            i += 1;
        }
        out
    }

    // ── memory ──

    pub fn memory(&self) -> (m: RoutingMemory)
        ensures
            m == self.memory_state(),
    {
        self.memory.clone()
    }

    pub fn restore_memory(&mut self, memory: RoutingMemory)
        ensures
            final(self).memory_state() == memory,
            final(self).rules() == old(self).rules(),
    {
        self.memory = memory;
    }

    pub fn note_output_switch(&mut self, previous: Option<String>)
        ensures
            final(self).memory_state().previous_output == previous,
            final(self).memory_state().previous_input == old(self).memory_state().previous_input,
            final(self).rules() == old(self).rules(),
    {
        self.memory.previous_output = previous;
    }

    pub fn note_input_switch(&mut self, previous: Option<String>)
        ensures
            final(self).memory_state().previous_input == previous,
            final(self).memory_state().previous_output == old(self).memory_state().previous_output,
            final(self).rules() == old(self).rules(),
    {
        self.memory.previous_input = previous;
    }

    pub fn take_previous_output(&mut self) -> (prev: Option<String>)
        ensures
            prev == old(self).memory_state().previous_output,
            final(self).memory_state().previous_output is None,
            final(self).memory_state().previous_input == old(self).memory_state().previous_input,
            final(self).rules() == old(self).rules(),
    {
        self.memory.previous_output.take()
    }

    pub fn take_previous_input(&mut self) -> (prev: Option<String>)
        ensures
            prev == old(self).memory_state().previous_input,
            final(self).memory_state().previous_input is None,
            final(self).memory_state().previous_output == old(self).memory_state().previous_output,
            final(self).rules() == old(self).rules(),
    {
        self.memory.previous_input.take()
    }
}

// ───────────────────────── laws of evaluation ─────────────────────────

/// A rule without conditions matches every context of its trigger.
pub proof fn law_empty_match_matches_all(m: RuleMatch, ctx: TriggerContext)
    requires
        m.kind is None && m.bus is None && m.name is None && m.id is None,
        m.application is None && m.profile is None,
    ensures
        conditions_hold(m, ctx),
{
}

/// Conditions on context the trigger lacks never match: an application
/// condition without a stream, a device condition without a device.
pub proof fn law_absent_context_never_matches(m: RuleMatch, ctx: TriggerContext)
    ensures
        m.application is Some && ctx.stream is None ==> !conditions_hold(m, ctx),
        has_device_condition(m) && ctx.device is None ==> !conditions_hold(m, ctx),
{
}

/// A firing rule marked `stop` ends evaluation: nothing after it adds an
/// action.
pub proof fn law_stop_halts(rules: Seq<Rule>, ctx: TriggerContext, i: int)
    requires
        0 <= i < rules.len(),
        rule_fires(rules[i], ctx),
        rules[i].stop,
    ensures
        evaluation_from(rules, ctx, i) == resolved_all(rules[i].action@, ctx),
{
    assert(resolved_all(rules[i].action@, ctx) + Seq::<ResolvedAction>::empty() =~= resolved_all(
        rules[i].action@,
        ctx,
    ));
}

/// Evaluation from `j` past a removed rule at `i < j` is evaluation of the
/// shortened list from `j - 1`.
proof fn lemma_evaluation_shift(rules: Seq<Rule>, ctx: TriggerContext, i: int, j: int)
    requires
        0 <= i < j,
        i < rules.len(),
    ensures
        evaluation_from(rules, ctx, j) == evaluation_from(rules.remove(i), ctx, j - 1),
    decreases rules.len() - j,
{
    let short = rules.remove(i);
    if j < rules.len() {
        assert(short[j - 1] == rules[j]);
        lemma_evaluation_shift(rules, ctx, i, j + 1);
    }
}

/// A disabled rule changes nothing: evaluating without it gives the same
/// actions.
pub proof fn law_disabled_rule_ignored(rules: Seq<Rule>, ctx: TriggerContext, i: int)
    requires
        0 <= i < rules.len(),
        !rules[i].enabled,
    ensures
        evaluation(rules, ctx) == evaluation(rules.remove(i), ctx),
{
    let short = rules.remove(i);
    lemma_evaluation_shift(rules, ctx, i, i + 1);
    assert(!rule_fires(rules[i], ctx));
    assert(evaluation_from(rules, ctx, i) == evaluation_from(short, ctx, i));
    lemma_evaluation_down(rules, short, ctx, i, i);
}

/// Lists that agree before `i` and evaluate alike from `k <= i` evaluate
/// alike from 0.
proof fn lemma_evaluation_down(a: Seq<Rule>, b: Seq<Rule>, ctx: TriggerContext, i: int, k: int)
    requires
        0 <= k <= i,
        i <= a.len(),
        i <= b.len(),
        forall|x: int| 0 <= x < i ==> a[x] == b[x],
        evaluation_from(a, ctx, k) == evaluation_from(b, ctx, k),
    ensures
        evaluation_from(a, ctx, 0) == evaluation_from(b, ctx, 0),
    decreases k,
{
    if k > 0 {
        assert(a[k - 1] == b[k - 1]);
        assert(evaluation_from(a, ctx, k - 1) == evaluation_from(b, ctx, k - 1));
        lemma_evaluation_down(a, b, ctx, i, k - 1);
    }
}

} // verus!
