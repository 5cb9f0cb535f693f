//! Identity propagation: every logical thread carries a security level and
//! the unit that owns it, for consumption by authorization logic elsewhere.
//! The policy itself is external; only the propagation channel lives here.

use vstd::prelude::*;

verus! {

/// The security level under which generated code or a logical thread runs.
#[derive(Clone, Copy, PartialEq, Eq, Structural, Debug)]
pub enum SecurityContext {
    NoSecurity,
    PluginSecurity,
    LocalUserSecurity,
    RobloxScriptSecurity,
}

/// The strictness rank of a security context; higher ranks include the
/// rights of lower ones.
pub open spec fn security_rank(c: SecurityContext) -> int {
    match c {
        SecurityContext::NoSecurity => 0,
        SecurityContext::PluginSecurity => 1,
        SecurityContext::LocalUserSecurity => 2,
        SecurityContext::RobloxScriptSecurity => 3,
    }
}

impl SecurityContext {
    /// Whether this security level grants at least the rights of `required`.
    pub fn grants(&self, required: SecurityContext) -> (r: bool)
        ensures
            r == (security_rank(*self) >= security_rank(required)),
    {
        let own: u8 = match self {
            SecurityContext::NoSecurity => 0,
            SecurityContext::PluginSecurity => 1,
            SecurityContext::LocalUserSecurity => 2,
            SecurityContext::RobloxScriptSecurity => 3,
        };
        let req: u8 = match required {
            SecurityContext::NoSecurity => 0,
            SecurityContext::PluginSecurity => 1,
            SecurityContext::LocalUserSecurity => 2,
            SecurityContext::RobloxScriptSecurity => 3,
        };
        own >= req
    }
}

/// The identity a logical thread carries: its security level and the unit
/// (script object) that owns it.
#[derive(Clone, Copy, PartialEq, Eq, Structural, Debug)]
pub struct ThreadIdentity {
    pub security_level: SecurityContext,
    pub owning_unit: u64,
}

/// Whether the current identity may write a plugin-protected property such
/// as a script's source: an anonymous caller may not, and a tagged caller
/// needs at least plugin rights.
pub open spec fn spec_may_write_protected(identity: Option<ThreadIdentity>) -> bool {
    match identity {
        Option::Some(iden) => security_rank(iden.security_level) >= security_rank(
            SecurityContext::PluginSecurity,
        ),
        Option::None => false,
    }
}

/// Decides whether a caller with the given identity may write a
/// plugin-protected property.
pub fn may_write_protected(identity: &Option<ThreadIdentity>) -> (r: bool)
    ensures
        r == spec_may_write_protected(*identity),
{
    match identity {
        Option::Some(iden) => iden.security_level.grants(SecurityContext::PluginSecurity),
        Option::None => false,
    }
}

} // verus!
