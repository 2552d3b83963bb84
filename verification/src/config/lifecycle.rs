//! How far the lifecycle acts on its own.

use vstd::prelude::*;

verus! {

/// Settings of the lifecycle.
#[derive(Clone, Copy, Debug, PartialEq, Eq, Structural)]
pub struct LifecycleConfig {
    /// End a session, with its runtime and worktree, once its pull request is merged.
    pub auto_terminate_on_merge: bool,
}

impl Default for LifecycleConfig {
    fn default() -> (r: Self)
        ensures
            r.auto_terminate_on_merge,
    {
        LifecycleConfig { auto_terminate_on_merge: default_auto_terminate_on_merge() }
    }
}

/// Sessions end with their pull request unless the configuration says otherwise.
pub fn default_auto_terminate_on_merge() -> (r: bool)
    ensures
        r,
{
    true
}

} // verus!
