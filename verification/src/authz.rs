//! Who calls, and what a caller must be allowed to do before a command may run
//! for them.

use vstd::prelude::*;

verus! {

/// A capability that a command demands of its caller.
#[derive(Clone, Copy, Debug, PartialEq, Eq, Structural)]
pub enum Capability {
    /// Observe a machine.
    VmRead,
    /// Change single settings of a machine.
    VmUpdate,
    /// Build a machine up.
    VmProvision,
    /// Run anything at all on a machine.
    VmExecArbitrary,
}

/// The role that the backend authenticated a caller as.
#[derive(Clone, Copy, Debug, PartialEq, Eq, Structural)]
pub enum Role {
    Guest,
    Operator,
}

/// Whether a role has a capability: an operator has them all, a guest may only
/// observe.
pub open spec fn grants(role: Role, capability: Capability) -> bool {
    role == Role::Operator || capability == Capability::VmRead
}

impl Role {
    /// Whether this role has `capability`.
    pub fn has(&self, capability: Capability) -> (r: bool)
        ensures
            r == grants(*self, capability),
    {
        *self == Role::Operator || capability == Capability::VmRead
    }
}

/// The name of a role.
pub open spec fn role_name(role: Role) -> Seq<char> {
    match role {
        Role::Guest => "Guest"@,
        Role::Operator => "Operator"@,
    }
}

/// The name of a capability.
pub open spec fn capability_name(capability: Capability) -> Seq<char> {
    match capability {
        Capability::VmRead => "VmRead"@,
        Capability::VmUpdate => "VmUpdate"@,
        Capability::VmProvision => "VmProvision"@,
        Capability::VmExecArbitrary => "VmExecArbitrary"@,
    }
}

/// What a caller is told whose role lacks the capability that a command demands.
pub open spec fn lacking(role: Role, capability: Capability, command: Seq<char>) -> Seq<char> {
    "role "@ + role_name(role) + " lacks capability "@ + capability_name(capability)
        + " required by '"@ + command + "'"@
}

/// What a caller is told whose role lacks the capability that a command demands.
pub fn lacking_message(role: Role, capability: Capability, command: &str) -> (r: String)
    ensures
        r@ == lacking(role, capability, command@),
{
    let mut out = "role ".to_owned();
    out.append(
        match role {
            Role::Guest => "Guest",
            Role::Operator => "Operator",
        },
    );
    out.append(" lacks capability ");
    out.append(
        match capability {
            Capability::VmRead => "VmRead",
            Capability::VmUpdate => "VmUpdate",
            Capability::VmProvision => "VmProvision",
            Capability::VmExecArbitrary => "VmExecArbitrary",
        },
    );
    out.append(" required by '");
    out.append(command);
    out.append("'");
    out
}

} // verus!
