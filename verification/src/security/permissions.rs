//! Which tools may run: a default policy and per-tool policies.

use vstd::prelude::*;
use crate::error::Error;
use crate::registry::Registry;
use crate::text::concat;

verus! {

/// Whether a tool may run.
#[derive(Debug, Clone, Copy, PartialEq, Eq, Structural)]
pub enum PermissionPolicy {
    /// Always allow execution.
    Allow,
    /// Always deny execution.
    Deny,
    /// Ask the user; for now this lets the tool run.
    Prompt,
}

impl Default for PermissionPolicy {
    fn default() -> (p: Self)
        ensures
            p == PermissionPolicy::Prompt,
    {
        PermissionPolicy::Prompt
    }
}

/// The policies listed for individual tools, by tool name.
pub type ToolPolicies = Registry<PermissionPolicy>;

/// Decides which tools may run: a policy per tool where one was set, and a
/// default policy for all others.
pub struct PermissionManager {
    default_policy: PermissionPolicy,
    tool_policies: Registry<PermissionPolicy>,
}

impl PermissionManager {
    /// The policies set for individual tools.
    pub closed spec fn policies(self) -> Map<Seq<char>, PermissionPolicy> {
        self.tool_policies.view()
    }

    /// The policy of tools that have none of their own.
    pub closed spec fn fallback(self) -> PermissionPolicy {
        self.default_policy
    }

    /// The policy that applies to `name`.
    pub open spec fn effective_policy(self, name: Seq<char>) -> PermissionPolicy {
        if self.policies().contains_key(name) {
            self.policies()[name]
        } else {
            self.fallback()
        }
    }

    /// A manager with the given default policy and no tool policies.
    pub fn new(default_policy: PermissionPolicy) -> (m: Self)
        ensures
            m.fallback() == default_policy,
            m.policies() == Map::<Seq<char>, PermissionPolicy>::empty(),
    {
        PermissionManager { default_policy, tool_policies: Registry::new() }
    }

    /// A manager that allows every tool.
    pub fn allow_all() -> (m: Self)
        ensures
            m.fallback() == PermissionPolicy::Allow,
            m.policies() == Map::<Seq<char>, PermissionPolicy>::empty(),
    {
        Self::new(PermissionPolicy::Allow)
    }

    /// A manager that denies every tool.
    pub fn deny_all() -> (m: Self)
        ensures
            m.fallback() == PermissionPolicy::Deny,
            m.policies() == Map::<Seq<char>, PermissionPolicy>::empty(),
    {
        Self::new(PermissionPolicy::Deny)
    }

    /// A manager that prompts for every tool.
    pub fn prompt_all() -> (m: Self)
        ensures
            m.fallback() == PermissionPolicy::Prompt,
            m.policies() == Map::<Seq<char>, PermissionPolicy>::empty(),
    {
        Self::new(PermissionPolicy::Prompt)
    }

    /// Sets the policy of one tool, replacing the one it had.
    pub fn set_tool_policy(&mut self, tool_name: &str, policy: PermissionPolicy)
        ensures
            final(self).fallback() == old(self).fallback(),
            final(self).policies() == old(self).policies().insert(tool_name@, policy),
            one_change(*old(self), *final(self)),
    {
        self.tool_policies.set(tool_name, policy);
        assert(self.policies() == old(self).policies().insert(tool_name@, policy));
    }

    /// The policy that applies to `tool_name`: its own, else the default.
    pub fn get_tool_policy(&self, tool_name: &str) -> (p: PermissionPolicy)
        ensures
            p == self.effective_policy(tool_name@),
    {
        match self.tool_policies.get(tool_name) {
            Some(p) => *p,
            None => self.default_policy,
        }
    }

    /// Fails exactly when the policy that applies to `tool_name` is `Deny`.
    pub fn check_permission(&self, tool_name: &str) -> (r: Result<(), Error>)
        ensures
            match r {
                Ok(_) => self.effective_policy(tool_name@) != PermissionPolicy::Deny,
                Err(e) => self.effective_policy(tool_name@) == PermissionPolicy::Deny
                    && (e matches Error::Internal(m)
                    && m@ == "Permission denied: tool '"@ + tool_name@ + "' is not allowed"@),
            },
    {
        match self.get_tool_policy(tool_name) {
            PermissionPolicy::Allow => Ok(()),
            PermissionPolicy::Deny => {
                let a = concat("Permission denied: tool '", tool_name);
                Err(Error::Internal(concat(a.as_str(), "' is not allowed")))
            },
            PermissionPolicy::Prompt => Ok(()),
        }
    }

    /// Removes the policy of one tool, which then follows the default; says
    /// whether it had one.
    pub fn remove_tool_policy(&mut self, tool_name: &str) -> (had: bool)
        ensures
            had == old(self).policies().contains_key(tool_name@),
            final(self).fallback() == old(self).fallback(),
            final(self).policies() == old(self).policies().remove(tool_name@),
            one_change(*old(self), *final(self)),
    {
        let had = self.tool_policies.remove(tool_name).is_some();
        assert(self.policies() == old(self).policies().remove(tool_name@));
        had
    }

    /// The tools that have a policy of their own, with that policy.
    pub fn list_tool_policies(&self) -> (l: ToolPolicies)
        ensures
            l.view() == self.policies(),
    {
        self.tool_policies.copied()
    }

    /// Removes every tool's own policy.
    pub fn clear_tool_policies(&mut self)
        ensures
            final(self).fallback() == old(self).fallback(),
            final(self).policies() == Map::<Seq<char>, PermissionPolicy>::empty(),
            one_change(*old(self), *final(self)),
    {
        self.tool_policies.clear();
    }

    /// The policy of tools that have none of their own.
    pub fn default_policy(&self) -> (p: PermissionPolicy)
        ensures
            p == self.fallback(),
    {
        self.default_policy
    }
}

impl Default for PermissionManager {
    fn default() -> (m: Self)
        ensures
            m.fallback() == PermissionPolicy::Prompt,
            m.policies() == Map::<Seq<char>, PermissionPolicy>::empty(),
    {
        Self::prompt_all()
    }
}

/// Setting a tool's policy makes it the policy that applies to that tool,
/// and leaves the policy of every other tool as it was.
pub proof fn law_set_then_get(before: PermissionManager, after: PermissionManager, name: Seq<char>, policy: PermissionPolicy)
    requires
        after.fallback() == before.fallback(),
        after.policies() == before.policies().insert(name, policy),
    ensures
        after.effective_policy(name) == policy,
        forall|k: Seq<char>| k != name ==> after.effective_policy(k) == before.effective_policy(k),
{
}

/// Removing a tool's policy makes the default policy apply to it again, and
/// leaves every other tool as it was.
pub proof fn law_remove_reverts(before: PermissionManager, after: PermissionManager, name: Seq<char>)
    requires
        after.fallback() == before.fallback(),
        after.policies() == before.policies().remove(name),
    ensures
        after.effective_policy(name) == before.fallback(),
        forall|k: Seq<char>| k != name ==> after.effective_policy(k) == before.effective_policy(k),
{
}

/// Once the tool policies are cleared (or none were set), the default
/// policy applies to every tool.
pub proof fn law_default_applies(m: PermissionManager)
    requires
        m.policies() == Map::<Seq<char>, PermissionPolicy>::empty(),
    ensures
        forall|k: Seq<char>| m.effective_policy(k) == m.fallback(),
{
}

/// `after` is what one of `set_tool_policy`, `remove_tool_policy` or
/// `clear_tool_policies` makes of `before` (each of their contracts gives
/// this): the default policy is kept, and the tool policies gain or
/// replace one entry, lose one, or are all removed.
pub open spec fn one_change(before: PermissionManager, after: PermissionManager) -> bool {
    &&& after.fallback() == before.fallback()
    &&& {
        ||| exists|name: Seq<char>, policy: PermissionPolicy| after.policies() == before.policies().insert(name, policy)
        ||| exists|name: Seq<char>| after.policies() == before.policies().remove(name)
        ||| after.policies() == Map::<Seq<char>, PermissionPolicy>::empty()
    }
}

/// The default policy never changes: along any sequence of managers, each
/// made from the one before by setting, removing or clearing tool policies
/// (reading calls change nothing), every manager has the default policy of
/// the first.
pub proof fn law_default_policy_never_changes(states: Seq<PermissionManager>)
    requires
        states.len() > 0,
        forall|k: int| 0 <= k < states.len() - 1 ==> #[trigger] one_change(states[k], states[k + 1]),
    ensures
        forall|k: int| 0 <= k < states.len() ==> (#[trigger] states[k]).fallback() == states[0].fallback(),
    decreases states.len(),
{
    if states.len() > 1 {
        let init = states.drop_last();
        assert forall|k: int| 0 <= k < init.len() - 1 implies #[trigger] one_change(init[k], init[k + 1]) by {
            assert(one_change(states[k], states[k + 1]));
        }
        law_default_policy_never_changes(init);
        let n = states.len() - 1;
        let j = n - 1;
        assert(one_change(states[j], states[j + 1]));
        assert(init[j] == states[j]);
        assert forall|k: int| 0 <= k < states.len() implies (#[trigger] states[k]).fallback() == states[0].fallback() by {
            if k < n {
                assert(init[k] == states[k]);
            }
        }
    }
}

} // verus!
