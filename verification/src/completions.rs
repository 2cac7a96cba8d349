//! Shells for which a completion script can be generated.

use vstd::prelude::*;

verus! {

/// Supported shells for completion generation.
#[derive(Clone, Copy, Debug, PartialEq, Eq, Structural)]
pub enum CompletionShell {
    Bash,
    Zsh,
    Fish,
    Nushell,
}

} // verus!
