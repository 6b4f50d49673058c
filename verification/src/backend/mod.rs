//! Hardware backends. The in-memory demo hardware lives here; the ALSA
//! backend talks to the sound system and is not part of the library.

use vstd::prelude::*;

use crate::text::str_eq;

pub mod demo;

verus! {

/// Which backend the configuration asks for.
#[derive(Debug, Clone, Copy, PartialEq, Eq, Structural)]
pub enum BackendChoice {
    /// The in-memory demo hardware (dev/CI).
    Demo,
    /// Real ALSA, or an error when it cannot be had.
    Alsa,
    /// ALSA when present, else the demo hardware.
    Auto,
}

/// `"demo"` forces the in-memory backend, `"alsa"` demands the real thing,
/// anything else (`"auto"` by default) uses ALSA when present.
pub fn backend_choice(name: &str) -> (c: BackendChoice)
    ensures
        name@ == "demo"@ ==> c == BackendChoice::Demo,
        name@ == "alsa"@ ==> c == BackendChoice::Alsa,
        name@ != "demo"@ && name@ != "alsa"@ ==> c == BackendChoice::Auto,
{
    proof {
        reveal_strlit("demo");
        reveal_strlit("alsa");
        assert("demo"@[0] != "alsa"@[0]);
    }
    if str_eq(name, "demo") {
        BackendChoice::Demo
    } else if str_eq(name, "alsa") {
        BackendChoice::Alsa
    } else {
        BackendChoice::Auto
    }
}

} // verus!
