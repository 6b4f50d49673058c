use mitos_audio::devices::{Bus, Device, DeviceKind, Direction};
use mitos_audio::routing::engine::{resolve_action, resolve_target, rule_matches};
use mitos_audio::routing::rules::{default_true, glob_match, glob_match_ci};
use mitos_audio::routing::{ActionSpec, ResolvedAction, RoutingEngine, RoutingMemory, Rule, RuleMatch, Trigger, TriggerContext};
use mitos_audio::streams::{AudioStream, StreamKind};

fn chars(s: &str) -> Vec<char> {
    s.chars().collect()
}

fn rule(name: &str, when: Trigger, conditions: RuleMatch, action: Vec<ActionSpec>, stop: bool) -> Rule {
    Rule { name: name.to_string(), when, conditions, action, stop, enabled: true }
}

fn headset() -> Device {
    Device::new("bt-headset", "Bluetooth Headset", DeviceKind::Headset, Direction::Both, Bus::Bluetooth)
}

#[test]
fn globs() {
    assert!(glob_match_ci("headset", "Headset"));
    assert!(glob_match_ci("bluetooth*", "Bluetooth Headset"));
    assert!(glob_match_ci("mitos-*", "mitos-music"));
    assert!(glob_match_ci("*game*", "My Game"));
    assert!(glob_match_ci("alsa:hw:?,0", "alsa:hw:1,0"));
    assert!(!glob_match_ci("alsa:hw:?,*", "alsa:hw:12,0"));
    assert!(glob_match_ci("a*c*e", "abcde"));
    assert!(!glob_match_ci("hdmi*", "speakers"));
}

#[test]
fn glob_is_case_sensitive_without_folding() {
    assert!(glob_match(&chars("Head*"), &chars("Headset")));
    assert!(!glob_match(&chars("head*"), &chars("Headset")));
    assert!(glob_match(&chars("*"), &chars("")));
    assert!(glob_match(&chars(""), &chars("")));
    assert!(!glob_match(&chars(""), &chars("a")));
    assert!(!glob_match(&chars("?"), &chars("")));
    assert!(glob_match(&chars("a?c"), &chars("abc")));
}

#[test]
fn star_matches_any_text() {
    assert!(glob_match(&chars("**"), &chars("abc")));
    assert!(glob_match(&chars("*"), &chars("abc")));
    assert!(glob_match(&chars("*"), &chars("**")));
    assert!(glob_match(&chars("*"), &chars("*x")));
    assert!(glob_match(&chars("*a"), &chars("*xa")));
    assert!(!glob_match(&chars("*a"), &chars("*xb")));
}

#[test]
fn pattern_matches_itself() {
    for p in ["a*b?c", "*", "", "??", "x*y*z", "alsa:hw:?,*"] {
        assert!(glob_match(&chars(p), &chars(p)));
    }
}

#[test]
fn plain_pattern_is_equality() {
    assert!(glob_match(&chars("speakers"), &chars("speakers")));
    assert!(!glob_match(&chars("speakers"), &chars("speaker")));
    assert!(!glob_match(&chars("speaker"), &chars("speakers")));
}

#[test]
fn match_needs_a_character_per_literal() {
    assert!(!glob_match(&chars("a*b*c"), &chars("ab")));
    assert!(glob_match(&chars("a*b*c"), &chars("abc")));
}

#[test]
fn glob_ci_folds_unicode_case() {
    assert!(glob_match_ci("ÄPFEL*", "äpfelkuchen"));
    assert!(glob_match_ci("speakers", "SPEAKERS"));
}

#[test]
fn enabled_defaults_to_true() {
    assert!(default_true());
}

#[test]
fn empty_match_matches_any_context() {
    let d = headset();
    let ctx = TriggerContext { trigger: Trigger::DeviceAdded, device: Some(&d), stream: None, profile: "stereo" };
    assert!(rule_matches(&RuleMatch::default(), &ctx));
    let bare = TriggerContext { trigger: Trigger::ProfileChanged, device: None, stream: None, profile: "x" };
    assert!(rule_matches(&RuleMatch::default(), &bare));
}

#[test]
fn absent_context_never_matches() {
    let d = headset();
    let ctx = TriggerContext { trigger: Trigger::DeviceAdded, device: Some(&d), stream: None, profile: "stereo" };
    let mut m = RuleMatch::default();
    m.application = Some("*".to_string());
    assert!(!rule_matches(&m, &ctx));

    let s = AudioStream::new("s-1", "My Game", StreamKind::Playback, "speakers");
    let sctx = TriggerContext { trigger: Trigger::StreamAdded, device: None, stream: Some(&s), profile: "stereo" };
    let mut dm = RuleMatch::default();
    dm.kind = Some("*".to_string());
    assert!(!rule_matches(&dm, &sctx));
}

#[test]
fn conditions_all_must_hold() {
    let d = headset();
    let ctx = TriggerContext { trigger: Trigger::DeviceAdded, device: Some(&d), stream: None, profile: "stereo" };
    let mut m = RuleMatch::default();
    m.kind = Some("headset".to_string());
    m.bus = Some("BLUETOOTH".to_string());
    assert!(rule_matches(&m, &ctx));
    m.profile = Some("bluetooth-*".to_string());
    assert!(!rule_matches(&m, &ctx));
}

#[test]
fn trigger_target_resolves_to_device() {
    let d = headset();
    let ctx = TriggerContext { trigger: Trigger::DeviceAdded, device: Some(&d), stream: None, profile: "stereo" };
    assert_eq!(resolve_target(&"trigger".to_string(), &ctx), Some("bt-headset".to_string()));
    assert_eq!(resolve_target(&"TRIGGER".to_string(), &ctx), Some("bt-headset".to_string()));
    assert_eq!(resolve_target(&"speakers".to_string(), &ctx), Some("speakers".to_string()));
    let bare = TriggerContext { trigger: Trigger::ProfileChanged, device: None, stream: None, profile: "x" };
    assert_eq!(resolve_target(&"trigger".to_string(), &bare), None);
}

#[test]
fn move_stream_needs_a_stream() {
    let d = headset();
    let ctx = TriggerContext { trigger: Trigger::DeviceAdded, device: Some(&d), stream: None, profile: "stereo" };
    assert!(resolve_action(&ActionSpec::MoveStream { to: "headphones".to_string() }, &ctx).is_none());
    let s = AudioStream::new("s-7", "game", StreamKind::Playback, "speakers");
    let sctx = TriggerContext { trigger: Trigger::StreamAdded, device: None, stream: Some(&s), profile: "stereo" };
    match resolve_action(&ActionSpec::MoveStream { to: "headphones".to_string() }, &sctx) {
        Some(ResolvedAction::MoveStream { stream_id, to }) => {
            assert_eq!(stream_id, "s-7");
            assert_eq!(to, "headphones");
        }
        _ => panic!("expected a move"),
    }
}

#[test]
fn evaluation_runs_in_file_order_and_stop_halts() {
    let d = headset();
    let ctx = TriggerContext { trigger: Trigger::DeviceAdded, device: Some(&d), stream: None, profile: "stereo" };
    let mut bt = RuleMatch::default();
    bt.bus = Some("bluetooth".to_string());
    let rules = vec![
        rule(
            "bt-connect",
            Trigger::DeviceAdded,
            bt,
            vec![
                ActionSpec::SetDefaultOutput { target: "trigger".to_string(), remember: true },
                ActionSpec::SetProfile { profile: "bluetooth-headset".to_string() },
            ],
            true,
        ),
        rule("after", Trigger::DeviceAdded, RuleMatch::default(), vec![ActionSpec::RestoreOutput], false),
    ];
    let engine = RoutingEngine::new(rules);
    assert_eq!(engine.rule_count(), 2);
    let out = engine.evaluate(&ctx);
    assert_eq!(out.len(), 2);
    assert!(matches!(&out[0], ResolvedAction::SetDefaultOutput { id, remember: true } if id == "bt-headset"));
    assert!(matches!(&out[1], ResolvedAction::SetProfile { profile } if profile == "bluetooth-headset"));
}

#[test]
fn disabled_and_other_trigger_rules_do_not_fire() {
    let d = headset();
    let ctx = TriggerContext { trigger: Trigger::DeviceAdded, device: Some(&d), stream: None, profile: "stereo" };
    let mut off = rule("off", Trigger::DeviceAdded, RuleMatch::default(), vec![ActionSpec::RestoreInput], false);
    off.enabled = false;
    let other = rule("other", Trigger::DeviceRemoved, RuleMatch::default(), vec![ActionSpec::RestoreOutput], false);
    let on = rule("on", Trigger::DeviceAdded, RuleMatch::default(), vec![ActionSpec::RestoreOutput], false);
    let engine = RoutingEngine::new(vec![off, other, on]);
    let out = engine.evaluate(&ctx);
    assert_eq!(out.len(), 1);
    assert!(matches!(out[0], ResolvedAction::RestoreOutput));
}

#[test]
fn remembered_default_is_restored_once() {
    let mut engine = RoutingEngine::new(Vec::new());
    engine.note_output_switch(Some("speakers".to_string()));
    engine.note_input_switch(Some("usb-mic".to_string()));
    let saved = engine.memory();
    assert_eq!(engine.take_previous_output(), Some("speakers".to_string()));
    assert_eq!(engine.take_previous_output(), None);
    assert_eq!(engine.take_previous_input(), Some("usb-mic".to_string()));
    assert_eq!(engine.take_previous_input(), None);
    engine.restore_memory(saved);
    assert_eq!(engine.take_previous_output(), Some("speakers".to_string()));
    let fresh = RoutingMemory::default();
    assert!(fresh.previous_output.is_none() && fresh.previous_input.is_none());
}

#[test]
fn replacing_rules_reports_the_count() {
    let mut engine = RoutingEngine::new(Vec::new());
    engine.note_output_switch(Some("hdmi0".to_string()));
    let n = engine.replace_rules(vec![rule("a", Trigger::StreamAdded, RuleMatch::default(), vec![], false)]);
    assert_eq!(n, 1);
    assert_eq!(engine.rule_count(), 1);
    assert_eq!(engine.take_previous_output(), Some("hdmi0".to_string()));
}
