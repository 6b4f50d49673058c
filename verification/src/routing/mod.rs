pub mod engine;
pub mod rules;

pub use engine::{ResolvedAction, RoutingEngine, RoutingMemory, TriggerContext};
pub use rules::{ActionSpec, Rule, RuleMatch, Trigger};
