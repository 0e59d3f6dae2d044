use crate::codec::augmented_bytes;
use crate::record::{clone_record, RecordView, SysManAccount};
use crate::store::StoreMap;
use crate::utils::{Role, Status};
use vstd::prelude::*;
use vstd::string::StringSliceAdditionalSpecFns;

verus! {

/// Which category of privileged identity an operation addresses.
#[derive(Clone, Copy, Debug, PartialEq, Eq, Structural)]
pub enum OperationType {
    SYS,
    ORG,
}

/// Every way a registry request can fail.
#[derive(Clone, Copy, Debug, PartialEq, Eq, Structural)]
pub enum Error {
    NoneValue,
    /// A lookup found a record holding another role than the operation
    /// requires, or a revocation's caller does not strictly outrank its
    /// target.
    NoValidAuthorization,
    CreateFailed,
    /// An approval target is already active in its category.
    AlreadyRegistered,
    /// An approval or revocation target is already in the revoked registry
    /// of its category; revocation is permanent.
    AlreadyRevoked,
    ConvertMetadataFailed,
    RetrieveAuthorityFailed,
    /// A caller or target is absent from the active system-manager registry.
    SysManNotExist,
    RevokedSysManNotExist,
    /// A target is absent from the active organization registry.
    RevokedOrgNotExist,
    OperationTypeInvalid,
}

/// The notification a successful operation emits; delivery is the caller's
/// concern.
#[derive(Debug)]
pub enum Event {
    Approved { target_id: u64, metadata: Vec<u8>, approver: u64 },
    Revoked { target_id: u64, revoker: u64 },
}

/// Mathematical model of an [`Event`].
pub enum EventView {
    Approved { target_id: u64, metadata: Seq<u8>, approver: u64 },
    Revoked { target_id: u64, revoker: u64 },
}

impl View for Event {
    type V = EventView;

    open spec fn view(&self) -> EventView {
        match self {
            Event::Approved { target_id, metadata, approver } => EventView::Approved {
                target_id: *target_id,
                metadata: metadata@,
                approver: *approver,
            },
            Event::Revoked { target_id, revoker } => EventView::Revoked {
                target_id: *target_id,
                revoker: *revoker,
            },
        }
    }
}

/// The model of an operation's outcome: the emitted notification on success,
/// the error otherwise.
pub open spec fn res_view(r: Result<Event, Error>) -> Result<EventView, Error> {
    match r {
        Ok(ev) => Ok(ev@),
        Err(e) => Err(e),
    }
}

/// Mathematical model of the whole registry: the four logical registries as
/// maps from identity to record model.
#[verifier::ext_equal]
pub struct RegView {
    pub sys_man: Map<u64, RecordView>,
    pub sys_man_revoked: Map<u64, RecordView>,
    pub org: Map<u64, RecordView>,
    pub org_revoked: Map<u64, RecordView>,
}

/// The registry engine and its four registries: active and revoked system
/// managers, active and revoked organizations.
///
/// The fields are public so that a provisioning step (or a test harness) can
/// seed records directly, as the one-time bootstrap of the root authority
/// does; the engine's own operations never bypass their stated checks.
pub struct Pallet {
    pub sys_man: StoreMap,
    pub sys_man_revoked: StoreMap,
    pub org: StoreMap,
    pub org_revoked: StoreMap,
}

impl View for Pallet {
    type V = RegView;

    open spec fn view(&self) -> RegView {
        RegView {
            sys_man: self.sys_man@,
            sys_man_revoked: self.sys_man_revoked@,
            org: self.org@,
            org_revoked: self.org_revoked@,
        }
    }
}

/// The level a record claims, reading an absent level as zero, exactly as
/// the revocation authorization check does.
pub open spec fn level_or_zero(rec: RecordView) -> u8 {
    match rec.level {
        Some(l) => l,
        None => 0,
    }
}

/// What resolving `id` against the active registry of the given category
/// yields: the record when it is present with the matching role, the
/// category's not-found error when absent, and `NoValidAuthorization` when
/// a record is present but holds another role.
pub open spec fn spec_resolve(s: RegView, id: u64, op_type: OperationType) -> Result<
    RecordView,
    Error,
> {
    match op_type {
        OperationType::SYS => {
            if !s.sys_man.dom().contains(id) {
                Err(Error::SysManNotExist)
            } else if s.sys_man[id].role is SysMan {
                Ok(s.sys_man[id])
            } else {
                Err(Error::NoValidAuthorization)
            }
        },
        OperationType::ORG => {
            if !s.org.dom().contains(id) {
                Err(Error::RevokedOrgNotExist)
            } else if s.org[id].role is Organization {
                Ok(s.org[id])
            } else {
                Err(Error::NoValidAuthorization)
            }
        },
    }
}

impl Pallet {
    /// All four registries are well-formed stores.
    pub open spec fn wf(&self) -> bool {
        self.sys_man.wf() && self.sys_man_revoked.wf() && self.org.wf() && self.org_revoked.wf()
    }

    /// A registry with no records at all; the root authority is provisioned
    /// separately.
    pub fn new() -> (r: Pallet)
        ensures
            r.wf(),
            r@.sys_man == Map::<u64, RecordView>::empty(),
            r@.sys_man_revoked == Map::<u64, RecordView>::empty(),
            r@.org == Map::<u64, RecordView>::empty(),
            r@.org_revoked == Map::<u64, RecordView>::empty(),
    {
        Pallet {
            sys_man: StoreMap::new(),
            sys_man_revoked: StoreMap::new(),
            org: StoreMap::new(),
            org_revoked: StoreMap::new(),
        }
    }

    /// Looks `id` up in the active registry of the requested category and
    /// checks that the stored record holds the matching role. Read-only: a
    /// failed authorization never mutates state.
    pub fn get_account(&self, id: u64, op_type: OperationType) -> (r: Result<SysManAccount, Error>)
        requires
            self.wf(),
        ensures
            r matches Ok(rec) ==> spec_resolve(self@, id, op_type) == Ok::<RecordView, Error>(
                rec@,
            ),
            r matches Err(e) ==> spec_resolve(self@, id, op_type) == Err::<RecordView, Error>(e),
    {
        match op_type {
            OperationType::SYS => match self.sys_man.get(id) {
                Some(rec) => match rec.role {
                    Role::SysMan => Ok(clone_record(rec)),
                    _ => Err(Error::NoValidAuthorization),
                },
                None => Err(Error::SysManNotExist),
            },
            OperationType::ORG => match self.org.get(id) {
                Some(rec) => match rec.role {
                    Role::Organization => Ok(clone_record(rec)),
                    _ => Err(Error::NoValidAuthorization),
                },
                None => Err(Error::RevokedOrgNotExist),
            },
        }
    }

    /// Assembles a fresh record from its parts; never fails.
    pub fn create_account(
        role: Role,
        status: Status,
        level: Option<u8>,
        children: Option<Vec<u64>>,
        parent: Option<u64>,
        metadata: Vec<u8>,
    ) -> (r: Result<SysManAccount, Error>)
        ensures
            r matches Ok(rec) && rec@ == (RecordView {
                role,
                status,
                level,
                parent,
                children: match children {
                    Some(c) => Some(c@),
                    None => None::<Seq<u64>>,
                },
                metadata: metadata@,
            }),
    {
        Ok(SysManAccount { role, status, level, children, parent, metadata })
    }

    /// The UTF-8 bytes of a string, as stored in record metadata.
    pub fn str2vec(s: &str) -> (r: Vec<u8>)
        ensures
            r@ == s.spec_bytes(),
    {
        vstd::slice::slice_to_vec(s.as_bytes())
    }
}

/// The demand `approve_sys_man` places on its caller: whenever the request
/// would actually create a record — the sender resolves as an active system
/// manager and the target is in neither system-manager registry — the
/// sender's record carries a level, and one below the representable
/// maximum. Requests that fail an earlier check demand nothing.
pub open spec fn approve_level_ok(s: RegView, sender: u64, sys_man_id: u64) -> bool {
    spec_resolve(s, sender, OperationType::SYS) matches Ok(a) ==> ((!s.sys_man.dom().contains(
        sys_man_id,
    ) && !s.sys_man_revoked.dom().contains(sys_man_id)) ==> a.level is Some && a.level->0
        < u8::MAX)
}

/// The record a successful system-manager approval creates: active, one
/// level below the approving authority, with the approver as parent.
pub open spec fn approved_sys_man_record(
    authority: RecordView,
    sender: u64,
    metadata: Seq<u8>,
) -> RecordView {
    RecordView {
        role: Role::SysMan,
        status: Status::Active,
        level: Some((authority.level->0 + 1) as u8),
        parent: Some(sender),
        children: Some(Seq::empty()),
        metadata,
    }
}

/// The state transition and outcome of `ApproveSystemManager`: the caller
/// must resolve as an active system manager, the target must be in neither
/// the active nor the revoked system-manager registry, and the new record
/// takes the caller's level plus one.
pub open spec fn spec_approve_sys_man(
    s: RegView,
    sender: u64,
    sys_man_id: u64,
    metadata: Seq<u8>,
) -> (RegView, Result<EventView, Error>) {
    match spec_resolve(s, sender, OperationType::SYS) {
        Err(e) => (s, Err(e)),
        Ok(authority) => {
            if s.sys_man.dom().contains(sys_man_id) {
                (s, Err(Error::AlreadyRegistered))
            } else if s.sys_man_revoked.dom().contains(sys_man_id) {
                (s, Err(Error::AlreadyRevoked))
            } else {
                (
                    RegView {
                        sys_man: s.sys_man.insert(
                            sys_man_id,
                            approved_sys_man_record(authority, sender, metadata),
                        ),
                        ..s
                    },
                    Ok(
                        EventView::Approved {
                            target_id: sys_man_id,
                            metadata,
                            approver: sender,
                        },
                    ),
                )
            }
        },
    }
}

/// The state transition and outcome of `ApproveOrganization`: any active
/// system manager may approve; the target must be in neither organization
/// registry; the new record carries no level and no parent.
pub open spec fn spec_approve_org(s: RegView, sender: u64, org_id: u64, metadata: Seq<u8>) -> (
    RegView,
    Result<EventView, Error>,
) {
    match spec_resolve(s, sender, OperationType::SYS) {
        Err(e) => (s, Err(e)),
        Ok(authority) => {
            if s.org.dom().contains(org_id) {
                (s, Err(Error::AlreadyRegistered))
            } else if s.org_revoked.dom().contains(org_id) {
                (s, Err(Error::AlreadyRevoked))
            } else {
                (
                    RegView {
                        org: s.org.insert(
                            org_id,
                            RecordView {
                                role: Role::Organization,
                                status: Status::Active,
                                level: None,
                                parent: None,
                                children: None,
                                metadata,
                            },
                        ),
                        ..s
                    },
                    Ok(EventView::Approved { target_id: org_id, metadata, approver: sender }),
                )
            }
        },
    }
}

/// The record moved into a revoked registry: the target's record with the
/// revocation reason stamped into its metadata, every other field kept.
pub open spec fn revoked_record(target: RecordView, description: Seq<char>) -> RecordView {
    RecordView {
        metadata: augmented_bytes(target.metadata, "revoke_description"@, description),
        ..target
    }
}

/// The state transition and outcome of `RevokeSystemManager`: both caller
/// and target must resolve as active system managers, the caller's level
/// must be strictly smaller than the target's, the target must not already
/// be revoked; then the record moves, augmented, from the active to the
/// revoked registry in one step.
pub open spec fn spec_revoke_sys_man(
    s: RegView,
    sender: u64,
    revoke_id: u64,
    description: Seq<char>,
) -> (RegView, Result<EventView, Error>) {
    match spec_resolve(s, sender, OperationType::SYS) {
        Err(e) => (s, Err(e)),
        Ok(authority) => match spec_resolve(s, revoke_id, OperationType::SYS) {
            Err(e) => (s, Err(e)),
            Ok(target) => {
                if !(level_or_zero(authority) < level_or_zero(target)) {
                    (s, Err(Error::NoValidAuthorization))
                } else if s.sys_man_revoked.dom().contains(revoke_id) {
                    (s, Err(Error::AlreadyRevoked))
                } else {
                    (
                        RegView {
                            sys_man: s.sys_man.remove(revoke_id),
                            sys_man_revoked: s.sys_man_revoked.insert(
                                revoke_id,
                                revoked_record(target, description),
                            ),
                            ..s
                        },
                        Ok(EventView::Revoked { target_id: revoke_id, revoker: sender }),
                    )
                }
            },
        },
    }
}

/// The state transition and outcome of `RevokeOrganization`: the caller must
/// resolve as an active system manager (organizations have no level, so no
/// level comparison applies), the target as an active organization, and the
/// target must not already be revoked; then the augmented record moves
/// between the organization registries in one step.
pub open spec fn spec_revoke_org(
    s: RegView,
    sender: u64,
    revoke_org_id: u64,
    description: Seq<char>,
) -> (RegView, Result<EventView, Error>) {
    match spec_resolve(s, sender, OperationType::SYS) {
        Err(e) => (s, Err(e)),
        Ok(authority) => match spec_resolve(s, revoke_org_id, OperationType::ORG) {
            Err(e) => (s, Err(e)),
            Ok(target) => {
                if s.org_revoked.dom().contains(revoke_org_id) {
                    (s, Err(Error::AlreadyRevoked))
                } else {
                    (
                        RegView {
                            org: s.org.remove(revoke_org_id),
                            org_revoked: s.org_revoked.insert(
                                revoke_org_id,
                                revoked_record(target, description),
                            ),
                            ..s
                        },
                        Ok(EventView::Revoked { target_id: revoke_org_id, revoker: sender }),
                    )
                }
            },
        },
    }
}

impl Pallet {
    /// Approves `sys_man_id` as a new system manager on behalf of `sender`.
    ///
    /// When a record is actually created — the caller resolves and the
    /// target is in neither registry — the caller must carry a level below
    /// the representable maximum ([`approve_level_ok`]): a deeper hierarchy
    /// is outside the design envelope, so that case is a precondition
    /// violation rather than a recoverable error. Requests that fail any
    /// earlier check carry no such demand.
    pub fn approve_sys_man(&mut self, sender: u64, sys_man_id: u64, metadata: Vec<u8>) -> (r:
        Result<Event, Error>)
        requires
            old(self).wf(),
            approve_level_ok(old(self)@, sender, sys_man_id),
        ensures
            final(self).wf(),
            final(self)@ == spec_approve_sys_man(old(self)@, sender, sys_man_id, metadata@).0,
            res_view(r) == spec_approve_sys_man(old(self)@, sender, sys_man_id, metadata@).1,
    {
        let authority = match self.get_account(sender, OperationType::SYS) {
            Ok(a) => a,
            Err(e) => {
                return Err(e);
            },
        };
        if self.sys_man.contains_key(sys_man_id) {
            return Err(Error::AlreadyRegistered);
        }
        if self.sys_man_revoked.contains_key(sys_man_id) {
            return Err(Error::AlreadyRevoked);
        }
        let level = match authority.level {
            Some(l) => l,
            None => 0,
        };
        let sys_man = Pallet::create_account(
            Role::SysMan,
            Status::Active,
            Some(level + 1),
            Some(Vec::new()),
            Some(sender),
            crate::record::clone_bytes(&metadata),
        ).unwrap();
        self.sys_man.insert(sys_man_id, sys_man);
        proof {
            assert(self@ =~= spec_approve_sys_man(old(self)@, sender, sys_man_id, metadata@).0);
        }
        Ok(Event::Approved { target_id: sys_man_id, metadata, approver: sender })
    }

    /// Approves `org_id` as a new organization on behalf of `sender`.
    pub fn approve_org(&mut self, sender: u64, org_id: u64, metadata: Vec<u8>) -> (r: Result<
        Event,
        Error,
    >)
        requires
            old(self).wf(),
        ensures
            final(self).wf(),
            final(self)@ == spec_approve_org(old(self)@, sender, org_id, metadata@).0,
            res_view(r) == spec_approve_org(old(self)@, sender, org_id, metadata@).1,
    {
        let _authority = match self.get_account(sender, OperationType::SYS) {
            Ok(a) => a,
            Err(e) => {
                return Err(e);
            },
        };
        if self.org.contains_key(org_id) {
            return Err(Error::AlreadyRegistered);
        }
        if self.org_revoked.contains_key(org_id) {
            return Err(Error::AlreadyRevoked);
        }
        let org_account = Pallet::create_account(
            Role::Organization,
            Status::Active,
            None,
            None,
            None,
            crate::record::clone_bytes(&metadata),
        ).unwrap();
        self.org.insert(org_id, org_account);
        proof {
            assert(self@ =~= spec_approve_org(old(self)@, sender, org_id, metadata@).0);
        }
        Ok(Event::Approved { target_id: org_id, metadata, approver: sender })
    }

    /// Revokes the system manager `revoke_id` on behalf of `sender`, who
    /// must hold strictly higher authority (a strictly smaller level).
    pub fn revoke_sys_man(&mut self, sender: u64, revoke_id: u64, description: &str) -> (r: Result<
        Event,
        Error,
    >)
        requires
            old(self).wf(),
        ensures
            final(self).wf(),
            final(self)@ == spec_revoke_sys_man(old(self)@, sender, revoke_id, description@).0,
            res_view(r) == spec_revoke_sys_man(old(self)@, sender, revoke_id, description@).1,
    {
        let authority = match self.get_account(sender, OperationType::SYS) {
            Ok(a) => a,
            Err(e) => {
                return Err(e);
            },
        };
        let revoke_sys_man = match self.get_account(revoke_id, OperationType::SYS) {
            Ok(a) => a,
            Err(e) => {
                return Err(e);
            },
        };
        let auth_level = match authority.level {
            Some(l) => l,
            None => 0,
        };
        let target_level = match revoke_sys_man.level {
            Some(l) => l,
            None => 0,
        };
        if !(auth_level < target_level) {
            return Err(Error::NoValidAuthorization);
        }
        if self.sys_man_revoked.contains_key(revoke_id) {
            return Err(Error::AlreadyRevoked);
        }
        let metadata = crate::codec::augment_metadata(
            &revoke_sys_man.metadata,
            "revoke_description",
            description,
        );
        let revoked = SysManAccount {
            role: revoke_sys_man.role,
            status: revoke_sys_man.status,
            level: revoke_sys_man.level,
            parent: revoke_sys_man.parent,
            children: revoke_sys_man.children,
            metadata,
        };
        self.sys_man.remove(revoke_id);
        self.sys_man_revoked.insert(revoke_id, revoked);
        proof {
            assert(self@ =~= spec_revoke_sys_man(old(self)@, sender, revoke_id, description@).0);
        }
        Ok(Event::Revoked { target_id: revoke_id, revoker: sender })
    }

    /// Revokes the organization `revoke_org_id` on behalf of `sender`; any
    /// active system manager outranks any organization, so no level check
    /// applies.
    pub fn revoke_org(&mut self, sender: u64, revoke_org_id: u64, description: &str) -> (r: Result<
        Event,
        Error,
    >)
        requires
            old(self).wf(),
        ensures
            final(self).wf(),
            final(self)@ == spec_revoke_org(old(self)@, sender, revoke_org_id, description@).0,
            res_view(r) == spec_revoke_org(old(self)@, sender, revoke_org_id, description@).1,
    {
        let _authority = match self.get_account(sender, OperationType::SYS) {
            Ok(a) => a,
            Err(e) => {
                return Err(e);
            },
        };
        let revoke_org = match self.get_account(revoke_org_id, OperationType::ORG) {
            Ok(a) => a,
            Err(e) => {
                return Err(e);
            },
        };
        if self.org_revoked.contains_key(revoke_org_id) {
            return Err(Error::AlreadyRevoked);
        }
        let metadata = crate::codec::augment_metadata(
            &revoke_org.metadata,
            "revoke_description",
            description,
        );
        let revoked = SysManAccount {
            role: revoke_org.role,
            status: revoke_org.status,
            level: revoke_org.level,
            parent: revoke_org.parent,
            children: revoke_org.children,
            metadata,
        };
        self.org.remove(revoke_org_id);
        self.org_revoked.insert(revoke_org_id, revoked);
        proof {
            assert(self@ =~= spec_revoke_org(old(self)@, sender, revoke_org_id, description@).0);
        }
        Ok(Event::Revoked { target_id: revoke_org_id, revoker: sender })
    }
}

/// For each category, no identity is simultaneously in the active and the
/// revoked registry.
pub open spec fn registries_disjoint(s: RegView) -> bool {
    &&& forall|x: u64|
        s.sys_man.dom().contains(x) ==> !(#[trigger] s.sys_man_revoked.dom().contains(x))
    &&& forall|x: u64| s.org.dom().contains(x) ==> !(#[trigger] s.org_revoked.dom().contains(x))
}

/// Law (permanence, system managers): once an identity stands in the
/// revoked system-manager registry, approving it again leaves the state
/// untouched and can only fail — with `AlreadyRevoked` whenever the caller's
/// own authorization passes. Together with
/// [`lemma_revoked_registries_monotone`], which shows that no operation ever
/// shrinks a revoked registry, this holds no matter how many requests come
/// in between.
pub proof fn lemma_revocation_permanent_sys_man(
    s: RegView,
    sender: u64,
    sys_man_id: u64,
    metadata: Seq<u8>,
)
    requires
        registries_disjoint(s),
        s.sys_man_revoked.dom().contains(sys_man_id),
    ensures
        spec_approve_sys_man(s, sender, sys_man_id, metadata).0 == s,
        spec_approve_sys_man(s, sender, sys_man_id, metadata).1 is Err,
        spec_resolve(s, sender, OperationType::SYS) is Ok ==> spec_approve_sys_man(
            s,
            sender,
            sys_man_id,
            metadata,
        ).1 == Err::<EventView, Error>(Error::AlreadyRevoked),
{
    assert(!s.sys_man.dom().contains(sys_man_id));
}

/// Law (permanence, organizations): the same, for the organization
/// registries.
pub proof fn lemma_revocation_permanent_org(s: RegView, sender: u64, org_id: u64, metadata: Seq<u8>)
    requires
        registries_disjoint(s),
        s.org_revoked.dom().contains(org_id),
    ensures
        spec_approve_org(s, sender, org_id, metadata).0 == s,
        spec_approve_org(s, sender, org_id, metadata).1 is Err,
        spec_resolve(s, sender, OperationType::SYS) is Ok ==> spec_approve_org(
            s,
            sender,
            org_id,
            metadata,
        ).1 == Err::<EventView, Error>(Error::AlreadyRevoked),
{
    assert(!s.org.dom().contains(org_id));
}

/// Law (revoked registries only grow): an approval leaves both revoked
/// registries untouched, and a revocation at most adds the revoked identity
/// to the revoked registry of its own category — no operation ever removes
/// or rewrites an entry of a revoked registry.
pub proof fn lemma_revoked_registries_monotone(
    s: RegView,
    sender: u64,
    id: u64,
    metadata: Seq<u8>,
    description: Seq<char>,
)
    ensures
        spec_approve_sys_man(s, sender, id, metadata).0.sys_man_revoked == s.sys_man_revoked,
        spec_approve_sys_man(s, sender, id, metadata).0.org_revoked == s.org_revoked,
        spec_approve_org(s, sender, id, metadata).0.sys_man_revoked == s.sys_man_revoked,
        spec_approve_org(s, sender, id, metadata).0.org_revoked == s.org_revoked,
        s.sys_man_revoked.submap_of(spec_revoke_sys_man(s, sender, id, description).0.sys_man_revoked),
        spec_revoke_sys_man(s, sender, id, description).0.org_revoked == s.org_revoked,
        s.org_revoked.submap_of(spec_revoke_org(s, sender, id, description).0.org_revoked),
        spec_revoke_org(s, sender, id, description).0.sys_man_revoked == s.sys_man_revoked,
{
    assert(s.sys_man_revoked.submap_of(s.sys_man_revoked));
    assert(s.org_revoked.submap_of(s.org_revoked));
}

/// Law (disjointness): every operation preserves the invariant that no
/// identity is simultaneously active and revoked in one category. An
/// approval inserts only an identity absent from the revoked registry; a
/// revocation removes the identity from the active registry in the same
/// atomic step that adds it to the revoked one.
pub proof fn lemma_disjointness_preserved(
    s: RegView,
    sender: u64,
    id: u64,
    metadata: Seq<u8>,
    description: Seq<char>,
)
    requires
        registries_disjoint(s),
    ensures
        registries_disjoint(spec_approve_sys_man(s, sender, id, metadata).0),
        registries_disjoint(spec_approve_org(s, sender, id, metadata).0),
        registries_disjoint(spec_revoke_sys_man(s, sender, id, description).0),
        registries_disjoint(spec_revoke_org(s, sender, id, description).0),
{
}

/// Law (level assignment): a successful system-manager approval stores,
/// under the target identity, an active record whose level is exactly the
/// approver's level plus one and whose parent is the approver.
pub proof fn lemma_level_assignment(s: RegView, sender: u64, sys_man_id: u64, metadata: Seq<u8>)
    requires
        spec_approve_sys_man(s, sender, sys_man_id, metadata).1 is Ok,
    ensures
        spec_resolve(s, sender, OperationType::SYS) is Ok,
        ({
            let post = spec_approve_sys_man(s, sender, sys_man_id, metadata).0;
            let approver = spec_resolve(s, sender, OperationType::SYS)->Ok_0;
            &&& post.sys_man.dom().contains(sys_man_id)
            &&& post.sys_man[sys_man_id].role == Role::SysMan
            &&& post.sys_man[sys_man_id].status == Status::Active
            &&& post.sys_man[sys_man_id].level == Some((approver.level->0 + 1) as u8)
            &&& post.sys_man[sys_man_id].parent == Some(sender)
        }),
{
}

/// Law (records never change in place): an operation aimed at one identity
/// leaves every other identity's record — in all four registries — exactly
/// as it was, so a level assigned at approval time is never reassigned; and
/// the record a revocation moves keeps its level and parent.
pub proof fn lemma_records_stable(
    s: RegView,
    sender: u64,
    id: u64,
    x: u64,
    metadata: Seq<u8>,
    description: Seq<char>,
)
    requires
        x != id,
    ensures
        spec_approve_sys_man(s, sender, id, metadata).0.sys_man.dom().contains(x)
            == s.sys_man.dom().contains(x),
        s.sys_man.dom().contains(x) ==> spec_approve_sys_man(s, sender, id, metadata).0.sys_man[x]
            == s.sys_man[x],
        spec_revoke_sys_man(s, sender, id, description).0.sys_man.dom().contains(x)
            == s.sys_man.dom().contains(x),
        s.sys_man.dom().contains(x) ==> spec_revoke_sys_man(s, sender, id, description).0.sys_man[x]
            == s.sys_man[x],
        spec_approve_org(s, sender, id, metadata).0.org.dom().contains(x)
            == s.org.dom().contains(x),
        s.org.dom().contains(x) ==> spec_approve_org(s, sender, id, metadata).0.org[x] == s.org[x],
        spec_revoke_org(s, sender, id, description).0.org.dom().contains(x)
            == s.org.dom().contains(x),
        s.org.dom().contains(x) ==> spec_revoke_org(s, sender, id, description).0.org[x]
            == s.org[x],
        spec_revoke_sys_man(s, sender, id, description).1 is Ok ==> ({
            let moved = spec_revoke_sys_man(s, sender, id, description).0.sys_man_revoked[id];
            &&& moved.level == s.sys_man[id].level
            &&& moved.parent == s.sys_man[id].parent
            &&& moved.role == s.sys_man[id].role
        }),
{
}

/// Law (strict revocation authorization): with caller and target both
/// resolving as active system managers, revoking fails with
/// `NoValidAuthorization`, changing nothing, exactly when the caller's level
/// is not strictly smaller than the target's; when it is strictly smaller,
/// the target — active, hence not yet revoked — is always revoked
/// successfully.
pub proof fn lemma_revoke_authorization_strict(
    s: RegView,
    sender: u64,
    revoke_id: u64,
    description: Seq<char>,
)
    requires
        registries_disjoint(s),
        spec_resolve(s, sender, OperationType::SYS) is Ok,
        spec_resolve(s, revoke_id, OperationType::SYS) is Ok,
    ensures
        ({
            let caller = spec_resolve(s, sender, OperationType::SYS)->Ok_0;
            let target = spec_resolve(s, revoke_id, OperationType::SYS)->Ok_0;
            &&& level_or_zero(caller) >= level_or_zero(target) ==> spec_revoke_sys_man(
                s,
                sender,
                revoke_id,
                description,
            ) == (s, Err::<EventView, Error>(Error::NoValidAuthorization))
            &&& level_or_zero(caller) < level_or_zero(target) ==> spec_revoke_sys_man(
                s,
                sender,
                revoke_id,
                description,
            ).1 is Ok
        }),
{
    assert(s.sys_man.dom().contains(revoke_id));
    assert(!s.sys_man_revoked.dom().contains(revoke_id));
}

/// The active system-manager registry after the provisioned pairs have been
/// inserted in order; a later pair for the same identity overwrites an
/// earlier one.
pub open spec fn genesis_inserted(
    m: Map<u64, RecordView>,
    pairs: Seq<(u64, SysManAccount)>,
) -> Map<u64, RecordView>
    decreases pairs.len(),
{
    if pairs.len() == 0 {
        m
    } else {
        genesis_inserted(m.insert(pairs[0].0, pairs[0].1@), pairs.drop_first())
    }
}

/// The one-time provisioning step: the records — above all the root
/// authority, with level zero and no parent — that are placed directly into
/// the active system-manager registry before any request is served.
pub struct GenesisConfig {
    pub sys_man: Vec<(u64, SysManAccount)>,
}

impl Default for GenesisConfig {
    fn default() -> (r: Self)
        ensures
            r.sys_man@.len() == 0,
    {
        GenesisConfig { sys_man: Vec::new() }
    }
}

impl GenesisConfig {
    /// Installs every provisioned record into the active system-manager
    /// registry.
    pub fn build(&self, pallet: &mut Pallet)
        requires
            old(pallet).wf(),
        ensures
            final(pallet).wf(),
            final(pallet)@ == (RegView {
                sys_man: genesis_inserted(old(pallet)@.sys_man, self.sys_man@),
                ..old(pallet)@
            }),
    {
        let n = self.sys_man.len();
        let mut i: usize = 0;
        proof {
            assert(self.sys_man@.skip(0) =~= self.sys_man@);
        }
        while i < n
            invariant
                pallet.wf(),
                n == self.sys_man@.len(),
                i <= n,
                pallet@.sys_man_revoked == old(pallet)@.sys_man_revoked,
                pallet@.org == old(pallet)@.org,
                pallet@.org_revoked == old(pallet)@.org_revoked,
                genesis_inserted(old(pallet)@.sys_man, self.sys_man@) == genesis_inserted(
                    pallet@.sys_man,
                    self.sys_man@.skip(i as int),
                ),
            decreases n - i,
        {
            let id = self.sys_man[i].0;
            let rec = clone_record(&self.sys_man[i].1);
            proof {
                assert(self.sys_man@.skip(i as int).drop_first() =~= self.sys_man@.skip(i + 1));
                assert(self.sys_man@.skip(i as int)[0] == self.sys_man@[i as int]);
            }
            pallet.sys_man.insert(id, rec);
            i += 1;
        }
        proof {
            assert(self.sys_man@.skip(n as int).len() == 0);
            assert(pallet@ =~= (RegView {
                sys_man: genesis_inserted(old(pallet)@.sys_man, self.sys_man@),
                ..old(pallet)@
            }));
        }
    }
}

} // verus!
