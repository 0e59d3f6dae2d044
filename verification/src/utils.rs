use vstd::prelude::*;

verus! {

/// The role a privileged identity holds in the registry.
#[derive(Clone, Copy, Debug, PartialEq, Eq, Structural)]
pub enum Role {
    Organization,
    SysMan,
    User,
}

/// The lifecycle status recorded on an identity's record.
///
/// The registry only ever produces `Active` records: a revocation moves the
/// record between registries instead of rewriting this field.
#[derive(Clone, Copy, Debug, PartialEq, Eq, Structural)]
pub enum Status {
    Active,
    Revoked,
    Deactivated,
}

impl Default for Status {
    fn default() -> (r: Self)
        ensures
            r == Status::Active,
    {
        Self::Active
    }
}

} // verus!
