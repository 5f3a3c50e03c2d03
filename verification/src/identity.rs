//! Who calls a tool, and in which request.

use vstd::prelude::*;

verus! {

/// The caller, as the gateway knows it.
#[derive(Debug, Clone)]
pub struct PluginIdentity {
    pub kind: String,
    pub trust_level: String,
    pub subject_id: Option<String>,
    pub auth_provider: Option<String>,
    pub issuer: Option<String>,
    pub roles: Vec<String>,
    pub groups: Vec<String>,
    pub scopes: Vec<String>,
}

/// The tool call that the gateway is about to make or has made.
#[derive(Debug, Clone)]
pub struct PluginContext {
    pub request_id: String,
    pub session_id: Option<String>,
    pub tool_name: String,
    pub surface: String,
    pub identity: PluginIdentity,
    pub transport: String,
}

/// The caller, as a record names it.
#[derive(Debug, Clone)]
pub struct AuditIdentity {
    pub kind: String,
    pub trust_level: String,
    pub subject_id: Option<String>,
    pub auth_provider: Option<String>,
    pub issuer: Option<String>,
    pub roles: Vec<String>,
    pub groups: Vec<String>,
    pub scopes: Vec<String>,
}

impl AuditIdentity {
    /// Whether this names a caller.
    pub open spec fn names(self, caller: PluginIdentity) -> bool {
        &&& self.kind == caller.kind
        &&& self.trust_level == caller.trust_level
        &&& self.subject_id == caller.subject_id
        &&& self.auth_provider == caller.auth_provider
        &&& self.issuer == caller.issuer
        &&& self.roles@ == caller.roles@
        &&& self.groups@ == caller.groups@
        &&& self.scopes@ == caller.scopes@
    }

    /// Whether this names a caller in the same way as another.
    pub open spec fn same_as(self, other: AuditIdentity) -> bool {
        &&& self.kind == other.kind
        &&& self.trust_level == other.trust_level
        &&& self.subject_id == other.subject_id
        &&& self.auth_provider == other.auth_provider
        &&& self.issuer == other.issuer
        &&& self.roles@ == other.roles@
        &&& self.groups@ == other.groups@
        &&& self.scopes@ == other.scopes@
    }

    /// Names a caller in a record.
    pub fn from(caller: &PluginIdentity) -> (identity: AuditIdentity)
        ensures
            identity.names(*caller),
    {
        AuditIdentity {
            kind: caller.kind.clone(),
            trust_level: caller.trust_level.clone(),
            subject_id: caller.subject_id.clone(),
            auth_provider: caller.auth_provider.clone(),
            issuer: caller.issuer.clone(),
            roles: caller.roles.clone(),
            groups: caller.groups.clone(),
            scopes: caller.scopes.clone(),
        }
    }
}

} // verus!
