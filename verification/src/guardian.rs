//! The guardians of each child, their roles, and what each role may do.

use crate::address::Address;
use crate::error::{to_result, WalletError};
use std::collections::HashMap;
use vstd::prelude::*;
use vstd::std_specs::hash::*;

verus! {

/// What a guardian is allowed to do.
#[derive(Clone, Copy, Debug, PartialEq, Eq, Structural)]
pub enum GuardianRole {
    Owner,
    Viewer,
    Investor,
    Withdrawer,
}

impl GuardianRole {
    /// Whether a holder of this role may act where `required` is asked for.
    /// The Owner may do everything, a Withdrawer all but what is the Owner's,
    /// an Investor may invest and view, a Viewer may only view.
    pub open spec fn satisfies(self, required: GuardianRole) -> bool {
        match (self, required) {
            (GuardianRole::Owner, _) => true,
            (GuardianRole::Withdrawer, GuardianRole::Withdrawer) => true,
            (GuardianRole::Withdrawer, GuardianRole::Investor) => true,
            (GuardianRole::Withdrawer, GuardianRole::Viewer) => true,
            (GuardianRole::Investor, GuardianRole::Investor) => true,
            (GuardianRole::Investor, GuardianRole::Viewer) => true,
            (GuardianRole::Viewer, GuardianRole::Viewer) => true,
            _ => false,
        }
    }

    /// Whether a holder of this role may act where `required` is asked for.
    pub fn permits(&self, required: &GuardianRole) -> (r: bool)
        ensures
            r == self.satisfies(*required),
    {
        match (self, required) {
            (GuardianRole::Owner, _) => true,
            (GuardianRole::Withdrawer, GuardianRole::Withdrawer) => true,
            (GuardianRole::Withdrawer, GuardianRole::Investor) => true,
            (GuardianRole::Withdrawer, GuardianRole::Viewer) => true,
            (GuardianRole::Investor, GuardianRole::Investor) => true,
            (GuardianRole::Investor, GuardianRole::Viewer) => true,
            (GuardianRole::Viewer, GuardianRole::Viewer) => true,
            _ => false,
        }
    }
}

/// One guardian of a child.
#[derive(Debug, PartialEq, Eq)]
pub struct Guardian {
    pub address: Address,
    pub name: String,
    pub role: GuardianRole,
    pub added_at: u64,
    pub added_by: Address,
}

impl Clone for Guardian {
    fn clone(&self) -> (r: Self)
        ensures
            r == *self,
    {
        Guardian {
            address: self.address.clone(),
            name: self.name.clone(),
            role: self.role,
            added_at: self.added_at,
            added_by: self.added_by.clone(),
        }
    }
}

/// The guardians of one child, in the order in which they were added, and
/// the number of approvals that the child's affairs ask for.
#[derive(Debug, PartialEq, Eq)]
pub struct GuardianSystem {
    pub child_id: u64,
    pub guardians: Vec<Guardian>,
    pub required_approvals: u32,
}

/// A guardian system as a mathematical value.
pub struct GuardianSystemView {
    pub child_id: u64,
    pub guardians: Seq<Guardian>,
    pub required_approvals: u32,
}

impl View for GuardianSystem {
    type V = GuardianSystemView;

    open spec fn view(&self) -> GuardianSystemView {
        GuardianSystemView {
            child_id: self.child_id,
            guardians: self.guardians@,
            required_approvals: self.required_approvals,
        }
    }
}

/// Whether some guardian in the list has this address.
pub open spec fn is_guardian(guardians: Seq<Guardian>, address: Seq<char>) -> bool {
    exists|i: int| 0 <= i < guardians.len() && (#[trigger] guardians[i]).address@ == address
}

/// The place of the guardian with this address, where there is one.
pub open spec fn guardian_index(guardians: Seq<Guardian>, address: Seq<char>) -> int {
    choose|i: int| 0 <= i < guardians.len() && (#[trigger] guardians[i]).address@ == address
}

/// Whether the guardian with this address is the Owner.
pub open spec fn is_owner(guardians: Seq<Guardian>, address: Seq<char>) -> bool {
    exists|i: int|
        0 <= i < guardians.len() && (#[trigger] guardians[i]).address@ == address
            && guardians[i].role == GuardianRole::Owner
}

/// Whether the guardian with this address holds a role that satisfies
/// `required`. An address that is not listed has no permission.
pub open spec fn has_permission(
    guardians: Seq<Guardian>,
    address: Seq<char>,
    required: GuardianRole,
) -> bool {
    exists|i: int|
        0 <= i < guardians.len() && (#[trigger] guardians[i]).address@ == address
            && guardians[i].role.satisfies(required)
}

/// What holds of every guardian system: the first guardian is the one
/// Owner, no address is listed twice, and the required approvals are at
/// least one and at most the number of guardians.
pub open spec fn valid_system(s: GuardianSystemView) -> bool {
    &&& s.guardians.len() >= 1
    &&& s.guardians[0].role == GuardianRole::Owner
    &&& forall|i: int|
        1 <= i < s.guardians.len() ==> (#[trigger] s.guardians[i]).role != GuardianRole::Owner
    &&& forall|i: int, j: int|
        0 <= i < j < s.guardians.len() ==> (#[trigger] s.guardians[i]).address@ != (
        #[trigger] s.guardians[j]).address@
    &&& 1 <= s.required_approvals <= s.guardians.len()
}

/// What holds of every registry: each system is filed under its own child
/// and is valid.
pub open spec fn valid_registry(m: Map<u64, GuardianSystemView>) -> bool {
    forall|k: u64| #[trigger] m.contains_key(k) ==> m[k].child_id == k && valid_system(m[k])
}

/// A guardian as it is listed when it is added.
pub open spec fn new_guardian(
    address: Address,
    name: String,
    role: GuardianRole,
    now: u64,
    added_by: Address,
) -> Guardian {
    Guardian { address, name, role, added_at: now, added_by }
}

/// The guardian that `initialize` lists first: the Owner, added by itself.
pub open spec fn owner_guardian(owner: Address, owner_name: String, now: u64) -> Guardian {
    new_guardian(owner, owner_name, GuardianRole::Owner, now, owner)
}

/// Why `initialize` fails, if it does.
pub open spec fn initialize_failure(m: Map<u64, GuardianSystemView>, child_id: u64) -> Option<
    WalletError,
> {
    if m.contains_key(child_id) {
        Some(WalletError::AlreadyInitialized)
    } else {
        None
    }
}

/// The registry after a successful `initialize`.
pub open spec fn initialized(
    m: Map<u64, GuardianSystemView>,
    child_id: u64,
    owner: Address,
    owner_name: String,
    now: u64,
) -> Map<u64, GuardianSystemView> {
    m.insert(
        child_id,
        GuardianSystemView {
            child_id,
            guardians: seq![owner_guardian(owner, owner_name, now)],
            required_approvals: 1,
        },
    )
}

/// Why an operation that only the Owner may perform is refused at the door,
/// if it is.
pub open spec fn owner_failure(
    m: Map<u64, GuardianSystemView>,
    child_id: u64,
    caller: Seq<char>,
) -> Option<WalletError> {
    if !m.contains_key(child_id) {
        Some(WalletError::NotInitialized)
    } else if !is_owner(m[child_id].guardians, caller) {
        Some(WalletError::Unauthorized)
    } else {
        None
    }
}

/// Why `add_guardian` fails, if it does.
pub open spec fn add_guardian_failure(
    m: Map<u64, GuardianSystemView>,
    child_id: u64,
    caller: Seq<char>,
    address: Seq<char>,
    role: GuardianRole,
) -> Option<WalletError> {
    if owner_failure(m, child_id, caller) is Some {
        owner_failure(m, child_id, caller)
    } else if is_guardian(m[child_id].guardians, address) {
        Some(WalletError::DuplicateGuardian)
    } else if role == GuardianRole::Owner {
        Some(WalletError::OwnerRoleReserved)
    } else {
        None
    }
}

/// The registry after a successful `add_guardian`: the new guardian stands
/// last in the child's list.
pub open spec fn guardian_added(
    m: Map<u64, GuardianSystemView>,
    child_id: u64,
    guardian: Guardian,
) -> Map<u64, GuardianSystemView> {
    m.insert(
        child_id,
        GuardianSystemView { guardians: m[child_id].guardians.push(guardian), ..m[child_id] },
    )
}

/// Why `remove_guardian` and `update_guardian_role` refuse their target, if
/// they do: it is not listed, or it is the Owner.
pub open spec fn target_failure(
    m: Map<u64, GuardianSystemView>,
    child_id: u64,
    caller: Seq<char>,
    address: Seq<char>,
    on_owner: WalletError,
) -> Option<WalletError> {
    if owner_failure(m, child_id, caller) is Some {
        owner_failure(m, child_id, caller)
    } else if !is_guardian(m[child_id].guardians, address) {
        Some(WalletError::GuardianNotFound)
    } else if m[child_id].guardians[guardian_index(m[child_id].guardians, address)].role
        == GuardianRole::Owner {
        Some(on_owner)
    } else {
        None
    }
}

/// Why `remove_guardian` fails, if it does.
pub open spec fn remove_guardian_failure(
    m: Map<u64, GuardianSystemView>,
    child_id: u64,
    caller: Seq<char>,
    address: Seq<char>,
) -> Option<WalletError> {
    target_failure(m, child_id, caller, address, WalletError::CannotRemoveOwner)
}

/// The registry after a successful `remove_guardian`: the guardian with
/// this address has left the child's list, the others keep their order, and
/// the required approvals are lowered to the number of guardians left where
/// they were above it.
pub open spec fn guardian_removed(
    m: Map<u64, GuardianSystemView>,
    child_id: u64,
    address: Seq<char>,
) -> Map<u64, GuardianSystemView> {
    let s = m[child_id];
    let left = s.guardians.remove(guardian_index(s.guardians, address));
    m.insert(
        child_id,
        GuardianSystemView {
            guardians: left,
            required_approvals: if s.required_approvals > left.len() {
                left.len() as u32
            } else {
                s.required_approvals
            },
            ..s
        },
    )
}

/// Why `update_guardian_role` fails, if it does.
pub open spec fn update_guardian_role_failure(
    m: Map<u64, GuardianSystemView>,
    child_id: u64,
    caller: Seq<char>,
    address: Seq<char>,
    new_role: GuardianRole,
) -> Option<WalletError> {
    if target_failure(m, child_id, caller, address, WalletError::CannotChangeOwnerRole) is Some {
        target_failure(m, child_id, caller, address, WalletError::CannotChangeOwnerRole)
    } else if new_role == GuardianRole::Owner {
        Some(WalletError::OwnerRoleReserved)
    } else {
        None
    }
}

/// The registry after a successful `update_guardian_role`: the guardian
/// with this address has the new role, and nothing else has changed.
pub open spec fn guardian_role_updated(
    m: Map<u64, GuardianSystemView>,
    child_id: u64,
    address: Seq<char>,
    new_role: GuardianRole,
) -> Map<u64, GuardianSystemView> {
    let s = m[child_id];
    let i = guardian_index(s.guardians, address);
    m.insert(
        child_id,
        GuardianSystemView {
            guardians: s.guardians.update(i, Guardian { role: new_role, ..s.guardians[i] }),
            ..s
        },
    )
}

/// Why `set_required_approvals` fails, if it does.
pub open spec fn set_required_approvals_failure(
    m: Map<u64, GuardianSystemView>,
    child_id: u64,
    caller: Seq<char>,
    required: u32,
) -> Option<WalletError> {
    if owner_failure(m, child_id, caller) is Some {
        owner_failure(m, child_id, caller)
    } else if required == 0 || required > m[child_id].guardians.len() {
        Some(WalletError::InvalidApprovalCount)
    } else {
        None
    }
}

/// The registry after a successful `set_required_approvals`.
pub open spec fn required_approvals_set(
    m: Map<u64, GuardianSystemView>,
    child_id: u64,
    required: u32,
) -> Map<u64, GuardianSystemView> {
    m.insert(child_id, GuardianSystemView { required_approvals: required, ..m[child_id] })
}

/// In a valid system the first guardian with an address is the only one.
pub proof fn guardian_index_is_unique(s: GuardianSystemView, address: Seq<char>, i: int)
    requires
        valid_system(s),
        0 <= i < s.guardians.len(),
        s.guardians[i].address@ == address,
    ensures
        is_guardian(s.guardians, address),
        guardian_index(s.guardians, address) == i,
        is_owner(s.guardians, address) <==> i == 0,
{
    let k = guardian_index(s.guardians, address);
    assert(0 <= k < s.guardians.len() && s.guardians[k].address@ == address);
    if k < i {
        assert(s.guardians[k].address@ != s.guardians[i].address@);
    }
    if i < k {
        assert(s.guardians[i].address@ != s.guardians[k].address@);
    }
    if is_owner(s.guardians, address) {
        let o = choose|o: int|
            0 <= o < s.guardians.len() && (#[trigger] s.guardians[o]).address@ == address
                && s.guardians[o].role == GuardianRole::Owner;
        if o < i {
            assert(s.guardians[o].address@ != s.guardians[i].address@);
        }
        if i < o {
            assert(s.guardians[i].address@ != s.guardians[o].address@);
        }
    }
}

/// A guardian system stays valid when a guardian who is not the Owner,
/// under an address that is not listed yet, is added.
pub proof fn add_guardian_keeps_valid(
    m: Map<u64, GuardianSystemView>,
    child_id: u64,
    caller: Seq<char>,
    guardian: Guardian,
)
    requires
        valid_registry(m),
        add_guardian_failure(m, child_id, caller, guardian.address@, guardian.role) is None,
    ensures
        valid_registry(guardian_added(m, child_id, guardian)),
{
    let s = m[child_id];
    let after = guardian_added(m, child_id, guardian);
    assert(m.contains_key(child_id));
    assert forall|i: int, j: int| 0 <= i < j < after[child_id].guardians.len() implies (
    #[trigger] after[child_id].guardians[i]).address@ != (
    #[trigger] after[child_id].guardians[j]).address@ by {
        if j == s.guardians.len() {
            assert(s.guardians[i].address@ != guardian.address@);
        } else {
            assert(s.guardians[i].address@ != s.guardians[j].address@);
        }
    }
    assert(valid_system(after[child_id]));
    assert forall|k: u64| #[trigger] after.contains_key(k) implies after[k].child_id == k
        && valid_system(after[k]) by {
        if k != child_id {
            assert(m.contains_key(k));
        }
    }
}

/// A guardian system stays valid when a guardian who is not the Owner
/// leaves it.
pub proof fn remove_guardian_keeps_valid(
    m: Map<u64, GuardianSystemView>,
    child_id: u64,
    caller: Seq<char>,
    address: Seq<char>,
)
    requires
        valid_registry(m),
        remove_guardian_failure(m, child_id, caller, address) is None,
    ensures
        valid_registry(guardian_removed(m, child_id, address)),
{
    let s = m[child_id];
    let i = guardian_index(s.guardians, address);
    let after = guardian_removed(m, child_id, address);
    let left = after[child_id].guardians;
    assert(m.contains_key(child_id));
    assert(0 <= i < s.guardians.len() && s.guardians[i].address@ == address);
    assert(i != 0);
    assert(left =~= s.guardians.remove(i));
    assert forall|a: int| 1 <= a < left.len() implies (#[trigger] left[a]).role
        != GuardianRole::Owner by {
        if a < i {
            assert(left[a] == s.guardians[a]);
        } else {
            assert(left[a] == s.guardians[a + 1]);
        }
    }
    assert forall|a: int, b: int| 0 <= a < b < left.len() implies (#[trigger] left[a]).address@ != (
    #[trigger] left[b]).address@ by {
        let a0 = if a < i { a } else { a + 1 };
        let b0 = if b < i { b } else { b + 1 };
        assert(left[a] == s.guardians[a0]);
        assert(left[b] == s.guardians[b0]);
        assert(s.guardians[a0].address@ != s.guardians[b0].address@);
    }
    assert(left[0] == s.guardians[0]);
    assert(valid_system(after[child_id]));
    assert forall|k: u64| #[trigger] after.contains_key(k) implies after[k].child_id == k
        && valid_system(after[k]) by {
        if k != child_id {
            assert(m.contains_key(k));
        }
    }
}

/// A guardian system stays valid when a guardian who is not the Owner gets
/// another role that is not the Owner's.
pub proof fn update_guardian_role_keeps_valid(
    m: Map<u64, GuardianSystemView>,
    child_id: u64,
    caller: Seq<char>,
    address: Seq<char>,
    new_role: GuardianRole,
)
    requires
        valid_registry(m),
        update_guardian_role_failure(m, child_id, caller, address, new_role) is None,
    ensures
        valid_registry(guardian_role_updated(m, child_id, address, new_role)),
{
    let s = m[child_id];
    let i = guardian_index(s.guardians, address);
    let after = guardian_role_updated(m, child_id, address, new_role);
    let now = after[child_id].guardians;
    assert(m.contains_key(child_id));
    assert(0 <= i < s.guardians.len() && s.guardians[i].address@ == address);
    assert(i != 0);
    assert forall|a: int| 1 <= a < now.len() implies (#[trigger] now[a]).role
        != GuardianRole::Owner by {
        if a != i {
            assert(now[a] == s.guardians[a]);
        }
    }
    assert forall|a: int, b: int| 0 <= a < b < now.len() implies (#[trigger] now[a]).address@ != (
    #[trigger] now[b]).address@ by {
        assert(now[a].address == s.guardians[a].address);
        assert(now[b].address == s.guardians[b].address);
        assert(s.guardians[a].address@ != s.guardians[b].address@);
    }
    assert(now[0] == s.guardians[0]);
    assert(valid_system(after[child_id]));
    assert forall|k: u64| #[trigger] after.contains_key(k) implies after[k].child_id == k
        && valid_system(after[k]) by {
        if k != child_id {
            assert(m.contains_key(k));
        }
    }
}

/// A guardian system stays valid when the required approvals are set to a
/// number between one and the number of guardians, which they then are.
pub proof fn set_required_approvals_keeps_valid(
    m: Map<u64, GuardianSystemView>,
    child_id: u64,
    caller: Seq<char>,
    required: u32,
)
    requires
        valid_registry(m),
        set_required_approvals_failure(m, child_id, caller, required) is None,
    ensures
        valid_registry(required_approvals_set(m, child_id, required)),
        required_approvals_set(m, child_id, required)[child_id].required_approvals == required,
        1 <= required <= required_approvals_set(m, child_id, required)[child_id].guardians.len(),
{
    let after = required_approvals_set(m, child_id, required);
    assert(m.contains_key(child_id));
    assert(valid_system(after[child_id]));
    assert forall|k: u64| #[trigger] after.contains_key(k) implies after[k].child_id == k
        && valid_system(after[k]) by {
        if k != child_id {
            assert(m.contains_key(k));
        }
    }
}

/// A registry stays valid when a child without a guardian system gets one,
/// and that system starts with exactly one guardian, the Owner. From then
/// on `initialize` is refused for that child, as something that exists
/// already.
pub proof fn initialize_happens_once(
    m: Map<u64, GuardianSystemView>,
    child_id: u64,
    owner: Address,
    owner_name: String,
    now: u64,
)
    requires
        valid_registry(m),
        initialize_failure(m, child_id) is None,
    ensures
        valid_registry(initialized(m, child_id, owner, owner_name, now)),
        initialized(m, child_id, owner, owner_name, now)[child_id].guardians.len() == 1,
        initialized(m, child_id, owner, owner_name, now)[child_id].guardians[0].role
            == GuardianRole::Owner,
        initialized(m, child_id, owner, owner_name, now)[child_id].guardians[0].address == owner,
        initialize_failure(initialized(m, child_id, owner, owner_name, now), child_id) == Some(
            WalletError::AlreadyInitialized,
        ),
        WalletError::AlreadyInitialized.spec_kind() == crate::error::ErrorKind::AlreadyExists,
{
    let after = initialized(m, child_id, owner, owner_name, now);
    assert(valid_system(after[child_id]));
    assert forall|k: u64| #[trigger] after.contains_key(k) implies after[k].child_id == k
        && valid_system(after[k]) by {
        if k != child_id {
            assert(m.contains_key(k));
        }
    }
}

/// In a valid registry every guardian system has an Owner, and its
/// required approvals are at least one and at most the number of its
/// guardians.
pub proof fn owner_always_exists(m: Map<u64, GuardianSystemView>, child_id: u64)
    requires
        valid_registry(m),
        m.contains_key(child_id),
    ensures
        exists|i: int|
            0 <= i < m[child_id].guardians.len() && (#[trigger] m[child_id].guardians[i]).role
                == GuardianRole::Owner,
        is_owner(m[child_id].guardians, m[child_id].guardians[0].address@),
        1 <= m[child_id].required_approvals <= m[child_id].guardians.len(),
{
    assert(m[child_id].guardians[0].role == GuardianRole::Owner);
}

/// The Owner can be neither removed nor given another role: both are
/// refused, whoever asks, and where the Owner itself asks, with
/// `CannotRemoveOwner` and `CannotChangeOwnerRole`.
pub proof fn owner_cannot_leave(
    m: Map<u64, GuardianSystemView>,
    child_id: u64,
    caller: Seq<char>,
    address: Seq<char>,
    new_role: GuardianRole,
)
    requires
        valid_registry(m),
        m.contains_key(child_id),
        is_owner(m[child_id].guardians, address),
    ensures
        remove_guardian_failure(m, child_id, caller, address) is Some,
        update_guardian_role_failure(m, child_id, caller, address, new_role) is Some,
        is_owner(m[child_id].guardians, caller) ==> {
            &&& remove_guardian_failure(m, child_id, caller, address) == Some(
                WalletError::CannotRemoveOwner,
            )
            &&& update_guardian_role_failure(m, child_id, caller, address, new_role) == Some(
                WalletError::CannotChangeOwnerRole,
            )
        },
{
    let s = m[child_id];
    let o = choose|o: int|
        0 <= o < s.guardians.len() && (#[trigger] s.guardians[o]).address@ == address
            && s.guardians[o].role == GuardianRole::Owner;
    guardian_index_is_unique(s, address, o);
}

/// One request to change a child's guardian system.
pub enum RegistryStep {
    Add { caller: Seq<char>, guardian: Guardian },
    Remove { caller: Seq<char>, address: Seq<char> },
    UpdateRole { caller: Seq<char>, address: Seq<char>, new_role: GuardianRole },
    SetRequiredApprovals { caller: Seq<char>, required: u32 },
}

/// The registry after one request: changed as the request says where it is
/// granted, and as it was where it is refused.
pub open spec fn registry_after_step(
    m: Map<u64, GuardianSystemView>,
    child_id: u64,
    step: RegistryStep,
) -> Map<u64, GuardianSystemView> {
    match step {
        RegistryStep::Add { caller, guardian } => if add_guardian_failure(
            m,
            child_id,
            caller,
            guardian.address@,
            guardian.role,
        ) is None {
            guardian_added(m, child_id, guardian)
        } else {
            m
        },
        RegistryStep::Remove { caller, address } => if remove_guardian_failure(
            m,
            child_id,
            caller,
            address,
        ) is None {
            guardian_removed(m, child_id, address)
        } else {
            m
        },
        RegistryStep::UpdateRole { caller, address, new_role } => if update_guardian_role_failure(
            m,
            child_id,
            caller,
            address,
            new_role,
        ) is None {
            guardian_role_updated(m, child_id, address, new_role)
        } else {
            m
        },
        RegistryStep::SetRequiredApprovals { caller, required } => if set_required_approvals_failure(
            m,
            child_id,
            caller,
            required,
        ) is None {
            required_approvals_set(m, child_id, required)
        } else {
            m
        },
    }
}

/// The registry after a run of requests, taken one after the other.
pub open spec fn registry_after(
    m: Map<u64, GuardianSystemView>,
    child_id: u64,
    steps: Seq<RegistryStep>,
) -> Map<u64, GuardianSystemView>
    decreases steps.len(),
{
    if steps.len() == 0 {
        m
    } else {
        registry_after_step(registry_after(m, child_id, steps.drop_last()), child_id, steps.last())
    }
}

/// Whatever is asked of a child's guardian system, in whatever order, its
/// Owner stays: the first guardian is the same Owner before and after, the
/// registry stays valid, and the required approvals stay between one and
/// the number of guardians.
pub proof fn owner_survives_every_sequence(
    m: Map<u64, GuardianSystemView>,
    child_id: u64,
    steps: Seq<RegistryStep>,
)
    requires
        valid_registry(m),
        m.contains_key(child_id),
    ensures
        valid_registry(registry_after(m, child_id, steps)),
        registry_after(m, child_id, steps).contains_key(child_id),
        registry_after(m, child_id, steps)[child_id].guardians[0] == m[child_id].guardians[0],
        registry_after(m, child_id, steps)[child_id].guardians[0].role == GuardianRole::Owner,
        1 <= registry_after(m, child_id, steps)[child_id].required_approvals
            <= registry_after(m, child_id, steps)[child_id].guardians.len(),
    decreases steps.len(),
{
    if steps.len() > 0 {
        owner_survives_every_sequence(m, child_id, steps.drop_last());
        let before = registry_after(m, child_id, steps.drop_last());
        let s = before[child_id];
        match steps.last() {
            RegistryStep::Add { caller, guardian } => {
                if add_guardian_failure(before, child_id, caller, guardian.address@, guardian.role) is None {
                    add_guardian_keeps_valid(before, child_id, caller, guardian);
                }
            },
            RegistryStep::Remove { caller, address } => {
                if remove_guardian_failure(before, child_id, caller, address) is None {
                    remove_guardian_keeps_valid(before, child_id, caller, address);
                    let i = guardian_index(s.guardians, address);
                    assert(0 <= i < s.guardians.len() && s.guardians[i].address@ == address);
                    assert(i != 0);
                }
            },
            RegistryStep::UpdateRole { caller, address, new_role } => {
                if update_guardian_role_failure(before, child_id, caller, address, new_role) is None {
                    update_guardian_role_keeps_valid(before, child_id, caller, address, new_role);
                    let i = guardian_index(s.guardians, address);
                    assert(0 <= i < s.guardians.len() && s.guardians[i].address@ == address);
                    assert(i != 0);
                }
            },
            RegistryStep::SetRequiredApprovals { caller, required } => {
                if set_required_approvals_failure(before, child_id, caller, required) is None {
                    set_required_approvals_keeps_valid(before, child_id, caller, required);
                }
            },
        }
    }
}

/// The guardian systems of all children, each filed under its child.
pub struct GuardianContract {
    systems: HashMap<u64, GuardianSystem>,
}

impl View for GuardianContract {
    type V = Map<u64, GuardianSystemView>;

    closed spec fn view(&self) -> Map<u64, GuardianSystemView> {
        self.systems@.map_values(|s: GuardianSystem| s@)
    }
}

/// The place of the first guardian with this address.
fn find_guardian(guardians: &Vec<Guardian>, address: &Address) -> (r: Option<usize>)
    ensures
        match r {
            Some(i) => i < guardians@.len() && guardians@[i as int].address@ == address@
                && forall|j: int| 0 <= j < i ==> (#[trigger] guardians@[j]).address@ != address@,
            None => !is_guardian(guardians@, address@),
        },
{
    let mut i: usize = 0;
    while i < guardians.len()
        invariant
            i <= guardians@.len(),
            forall|j: int| 0 <= j < i ==> (#[trigger] guardians@[j]).address@ != address@,
        decreases guardians@.len() - i,
    {
        if guardians[i].address.same(address) {
            return Some(i);
        }
        i += 1;
    }
    None
}

/// A copy of the list, guardian by guardian.
pub fn clone_guardians(guardians: &Vec<Guardian>) -> (r: Vec<Guardian>)
    ensures
        r@ == guardians@,
{
    let mut out: Vec<Guardian> = Vec::new();
    let mut i: usize = 0;
    while i < guardians.len()
        invariant
            i <= guardians@.len(),
            out@ == guardians@.take(i as int),
        decreases guardians@.len() - i,
    {
        out.push(guardians[i].clone());
        proof {
            assert(out@ =~= guardians@.take(i + 1));
        }
        i += 1;
    }
    proof {
        assert(guardians@.take(i as int) =~= guardians@);
    }
    out
}

impl GuardianContract {
    /// Every system is filed under its own child and is valid.
    pub open spec fn wf(&self) -> bool {
        valid_registry(self@)
    }

    /// A registry without any guardian system.
    pub fn new() -> (r: GuardianContract)
        ensures
            r.wf(),
            r@ == Map::<u64, GuardianSystemView>::empty(),
    {
        let r = GuardianContract { systems: HashMap::new() };
        assert(r@ =~= Map::<u64, GuardianSystemView>::empty());
        r
    }

    /// Sets up the child's guardian system with `owner` as its one guardian,
    /// in the Owner role, and one required approval. Fails with
    /// `AlreadyInitialized` where the child has a system already.
    pub fn initialize(
        &mut self,
        child_id: u64,
        owner: Address,
        owner_name: String,
        now: u64,
    ) -> (r: Result<(), WalletError>)
        requires
            old(self).wf(),
        ensures
            final(self).wf(),
            r == to_result(initialize_failure(old(self)@, child_id)),
            final(self)@ == if r is Ok {
                initialized(old(self)@, child_id, owner, owner_name, now)
            } else {
                old(self)@
            },
    {
        broadcast use group_hash_axioms;

        if self.systems.contains_key(&child_id) {
            return Err(WalletError::AlreadyInitialized);
        }
        let mut guardians: Vec<Guardian> = Vec::new();
        guardians.push(
            Guardian {
                address: owner.clone(),
                name: owner_name,
                role: GuardianRole::Owner,
                added_at: now,
                added_by: owner,
            },
        );
        let system = GuardianSystem { child_id, guardians, required_approvals: 1 };
        proof {
            assert(system@.guardians =~= seq![owner_guardian(owner, owner_name, now)]);
        }
        self.systems.insert(child_id, system);
        proof {
            assert(self@ =~= initialized(old(self)@, child_id, owner, owner_name, now));
        }
        Ok(())
    }

    /// Whether `caller` is the Owner among the child's guardians: `Ok` where
    /// it is, `NotInitialized` where the child has no guardian system,
    /// `Unauthorized` otherwise.
    pub fn require_owner_permission(&self, child_id: u64, caller: &Address) -> (r: Result<
        (),
        WalletError,
    >)
        requires
            self.wf(),
        ensures
            r == to_result(owner_failure(self@, child_id, caller@)),
    {
        broadcast use group_hash_axioms;

        match self.systems.get(&child_id) {
            None => Err(WalletError::NotInitialized),
            Some(system) => {
                assert(self@.contains_key(child_id) && self@[child_id] == system@);
                match find_guardian(&system.guardians, caller) {
                    None => Err(WalletError::Unauthorized),
                    Some(i) => {
                        if system.guardians[i].role == GuardianRole::Owner {
                            Ok(())
                        } else {
                            Err(WalletError::Unauthorized)
                        }
                    },
                }
            },
        }
    }

    /// Adds a guardian at the end of the child's list, with `now` as the
    /// time and `caller` as the one who added it. The caller must be the
    /// Owner; the address must not be listed yet; the Owner role cannot be
    /// given away.
    pub fn add_guardian(
        &mut self,
        child_id: u64,
        caller: &Address,
        guardian_address: Address,
        guardian_name: String,
        role: GuardianRole,
        now: u64,
    ) -> (r: Result<(), WalletError>)
        requires
            old(self).wf(),
        ensures
            final(self).wf(),
            r == to_result(
                add_guardian_failure(old(self)@, child_id, caller@, guardian_address@, role),
            ),
            final(self)@ == if r is Ok {
                guardian_added(
                    old(self)@,
                    child_id,
                    new_guardian(guardian_address, guardian_name, role, now, *caller),
                )
            } else {
                old(self)@
            },
    {
        broadcast use group_hash_axioms;

        let allowed = self.require_owner_permission(child_id, caller);
        if let Err(e) = allowed {
            return Err(e);
        }
        let mut system = self.systems.remove(&child_id).unwrap();
        if find_guardian(&system.guardians, &guardian_address).is_some() {
            self.systems.insert(child_id, system);
            assert(self@ =~= old(self)@);
            return Err(WalletError::DuplicateGuardian);
        }
        if role == GuardianRole::Owner {
            self.systems.insert(child_id, system);
            assert(self@ =~= old(self)@);
            return Err(WalletError::OwnerRoleReserved);
        }
        let guardian = Guardian {
            address: guardian_address,
            name: guardian_name,
            role,
            added_at: now,
            added_by: caller.clone(),
        };
        system.guardians.push(guardian);
        self.systems.insert(child_id, system);
        proof {
            assert(self@ =~= guardian_added(old(self)@, child_id, guardian));
            add_guardian_keeps_valid(old(self)@, child_id, caller@, guardian);
        }
        Ok(())
    }

    /// Takes the guardian with this address off the child's list; the
    /// others keep their order. The caller must be the Owner; the Owner
    /// cannot be removed. Where fewer guardians are left than approvals
    /// were required, the required approvals become the number left.
    pub fn remove_guardian(&mut self, child_id: u64, caller: &Address, guardian_address: &Address) -> (r:
        Result<(), WalletError>)
        requires
            old(self).wf(),
        ensures
            final(self).wf(),
            r == to_result(
                remove_guardian_failure(old(self)@, child_id, caller@, guardian_address@),
            ),
            final(self)@ == if r is Ok {
                guardian_removed(old(self)@, child_id, guardian_address@)
            } else {
                old(self)@
            },
    {
        broadcast use group_hash_axioms;

        let allowed = self.require_owner_permission(child_id, caller);
        if let Err(e) = allowed {
            return Err(e);
        }
        let mut system = self.systems.remove(&child_id).unwrap();
        let ghost before = system@;
        let found = find_guardian(&system.guardians, guardian_address);
        let index = match found {
            None => {
                self.systems.insert(child_id, system);
                assert(self@ =~= old(self)@);
                return Err(WalletError::GuardianNotFound);
            },
            Some(i) => i,
        };
        proof {
            guardian_index_is_unique(before, guardian_address@, index as int);
        }
        if system.guardians[index].role == GuardianRole::Owner {
            self.systems.insert(child_id, system);
            assert(self@ =~= old(self)@);
            return Err(WalletError::CannotRemoveOwner);
        }
        system.guardians.remove(index);
        let left = system.guardians.len();
        if system.required_approvals as usize > left {
            system.required_approvals = left as u32;
        }
        self.systems.insert(child_id, system);
        proof {
            assert(self@ =~= guardian_removed(old(self)@, child_id, guardian_address@));
            remove_guardian_keeps_valid(old(self)@, child_id, caller@, guardian_address@);
        }
        Ok(())
    }

    /// Gives the guardian with this address another role, in place. The
    /// caller must be the Owner; the Owner keeps its role, and nobody else
    /// gets it.
    pub fn update_guardian_role(
        &mut self,
        child_id: u64,
        caller: &Address,
        guardian_address: &Address,
        new_role: GuardianRole,
    ) -> (r: Result<(), WalletError>)
        requires
            old(self).wf(),
        ensures
            final(self).wf(),
            r == to_result(
                update_guardian_role_failure(
                    old(self)@,
                    child_id,
                    caller@,
                    guardian_address@,
                    new_role,
                ),
            ),
            final(self)@ == if r is Ok {
                guardian_role_updated(old(self)@, child_id, guardian_address@, new_role)
            } else {
                old(self)@
            },
    {
        broadcast use group_hash_axioms;

        let allowed = self.require_owner_permission(child_id, caller);
        if let Err(e) = allowed {
            return Err(e);
        }
        let mut system = self.systems.remove(&child_id).unwrap();
        let ghost before = system@;
        let found = find_guardian(&system.guardians, guardian_address);
        let index = match found {
            None => {
                self.systems.insert(child_id, system);
                assert(self@ =~= old(self)@);
                return Err(WalletError::GuardianNotFound);
            },
            Some(i) => i,
        };
        proof {
            guardian_index_is_unique(before, guardian_address@, index as int);
        }
        if system.guardians[index].role == GuardianRole::Owner {
            self.systems.insert(child_id, system);
            assert(self@ =~= old(self)@);
            return Err(WalletError::CannotChangeOwnerRole);
        }
        if new_role == GuardianRole::Owner {
            self.systems.insert(child_id, system);
            assert(self@ =~= old(self)@);
            return Err(WalletError::OwnerRoleReserved);
        }
        let mut updated = system.guardians[index].clone();
        updated.role = new_role;
        system.guardians.set(index, updated);
        self.systems.insert(child_id, system);
        proof {
            assert(self@ =~= guardian_role_updated(
                old(self)@,
                child_id,
                guardian_address@,
                new_role,
            ));
            update_guardian_role_keeps_valid(
                old(self)@,
                child_id,
                caller@,
                guardian_address@,
                new_role,
            );
        }
        Ok(())
    }

    /// Whether the guardian with this address may act where `required_role`
    /// is asked for. An address that is not listed, or a child without a
    /// guardian system, has no permission.
    pub fn check_permission(&self, child_id: u64, address: &Address, required_role: GuardianRole) -> (r:
        bool)
        requires
            self.wf(),
        ensures
            r == (self@.contains_key(child_id) && has_permission(
                self@[child_id].guardians,
                address@,
                required_role,
            )),
    {
        broadcast use group_hash_axioms;

        match self.systems.get(&child_id) {
            None => false,
            Some(system) => {
                assert(self@.contains_key(child_id) && self@[child_id] == system@);
                match find_guardian(&system.guardians, address) {
                    None => false,
                    Some(i) => {
                        let r = system.guardians[i].role.permits(&required_role);
                        proof {
                            guardian_index_is_unique(system@, address@, i as int);
                            if has_permission(system@.guardians, address@, required_role) {
                                let k = choose|k: int|
                                    0 <= k < system@.guardians.len() && (
                                    #[trigger] system@.guardians[k]).address@ == address@
                                        && system@.guardians[k].role.satisfies(required_role);
                                guardian_index_is_unique(system@, address@, k);
                            }
                        }
                        r
                    },
                }
            },
        }
    }

    /// The child's guardians, in the order in which they were added.
    pub fn get_guardians(&self, child_id: u64) -> (r: Result<Vec<Guardian>, WalletError>)
        ensures
            match r {
                Ok(list) => self@.contains_key(child_id) && list@ == self@[child_id].guardians,
                Err(e) => !self@.contains_key(child_id) && e == WalletError::NotInitialized,
            },
    {
        broadcast use group_hash_axioms;

        match self.systems.get(&child_id) {
            None => Err(WalletError::NotInitialized),
            Some(system) => {
                assert(self@.contains_key(child_id) && self@[child_id] == system@);
                Ok(clone_guardians(&system.guardians))
            },
        }
    }

    /// The number of approvals that the child's affairs ask for.
    pub fn get_required_approvals(&self, child_id: u64) -> (r: Result<u32, WalletError>)
        requires
            self.wf(),
        ensures
            match r {
                Ok(n) => self@.contains_key(child_id) && n == self@[child_id].required_approvals
                    && 1 <= n <= self@[child_id].guardians.len(),
                Err(e) => !self@.contains_key(child_id) && e == WalletError::NotInitialized,
            },
    {
        broadcast use group_hash_axioms;

        match self.systems.get(&child_id) {
            None => Err(WalletError::NotInitialized),
            Some(system) => {
                assert(self@.contains_key(child_id) && self@[child_id] == system@);
                Ok(system.required_approvals)
            },
        }
    }

    /// Sets the number of approvals that the child's affairs ask for. The
    /// caller must be the Owner; the number must be at least one and at
    /// most the number of guardians.
    pub fn set_required_approvals(&mut self, child_id: u64, caller: &Address, required: u32) -> (r:
        Result<(), WalletError>)
        requires
            old(self).wf(),
        ensures
            final(self).wf(),
            r == to_result(
                set_required_approvals_failure(old(self)@, child_id, caller@, required),
            ),
            final(self)@ == if r is Ok {
                required_approvals_set(old(self)@, child_id, required)
            } else {
                old(self)@
            },
    {
        broadcast use group_hash_axioms;

        let allowed = self.require_owner_permission(child_id, caller);
        if let Err(e) = allowed {
            return Err(e);
        }
        let mut system = self.systems.remove(&child_id).unwrap();
        if required == 0 || required as usize > system.guardians.len() {
            self.systems.insert(child_id, system);
            assert(self@ =~= old(self)@);
            return Err(WalletError::InvalidApprovalCount);
        }
        system.required_approvals = required;
        self.systems.insert(child_id, system);
        proof {
            assert(self@ =~= required_approvals_set(old(self)@, child_id, required));
            set_required_approvals_keeps_valid(old(self)@, child_id, caller@, required);
        }
        Ok(())
    }
}

} // verus!
