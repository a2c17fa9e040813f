//! The failures of the wallet's operations.

use vstd::prelude::*;

verus! {

/// The broad class of a failure.
#[derive(Clone, Copy, Debug, PartialEq, Eq, Structural)]
pub enum ErrorKind {
    /// The caller does not hold the role that the operation asks for.
    Unauthorized,
    /// A profile, plan, guardian, institution or strategy is not there.
    NotFound,
    /// A guardian, institution or guardian system is there already.
    AlreadyExists,
    /// An argument is out of its range.
    InvalidArgument,
    /// A plan is not in the state that the operation starts from.
    InvalidStateTransition,
    /// The balance does not cover the amount.
    InsufficientFunds,
    /// A rule of the wallet forbids the operation for now.
    PolicyViolation,
}

/// Why an operation was refused. A refused operation changes nothing.
#[derive(Clone, Copy, Debug, PartialEq, Eq, Structural)]
pub enum WalletError {
    /// The caller is not the Owner of the child's guardian system.
    Unauthorized,
    /// No guardian system was initialized for the child.
    NotInitialized,
    /// No profile exists for the child.
    ProfileNotFound,
    /// No plan has this identifier.
    PlanNotFound,
    /// No guardian has this address.
    GuardianNotFound,
    /// No institution has this address.
    InstitutionNotFound,
    /// No strategy was set for the child.
    StrategyNotFound,
    /// The child already has a guardian system.
    AlreadyInitialized,
    /// A guardian with this address is already listed.
    DuplicateGuardian,
    /// An institution with this address is already listed.
    InstitutionAlreadyApproved,
    /// An amount is zero or negative.
    InvalidAmount,
    /// A plan was asked for with no periods.
    InvalidPeriods,
    /// The target age is under 18.
    InvalidTargetAge,
    /// The target amount is zero or negative.
    InvalidTargetAmount,
    /// The number of approvals is zero or above the number of guardians.
    InvalidApprovalCount,
    /// The two allocations do not add up to 100.
    AllocationMismatch,
    /// The risk level is outside 1..=5.
    InvalidRiskLevel,
    /// The Owner cannot be removed.
    CannotRemoveOwner,
    /// The Owner's role cannot be changed.
    CannotChangeOwnerRole,
    /// The Owner role is held by one guardian and cannot be given to another.
    OwnerRoleReserved,
    /// A sum or a date would leave the range of its type.
    Overflow,
    /// The plan is not active.
    PlanNotActive,
    /// The plan's next payment is not due yet.
    PaymentNotDue,
    /// The plan cannot go from its state to the one asked for.
    InvalidStateTransition,
    /// The amount is above the balance.
    InsufficientBalance,
    /// The child has not reached the target age.
    BelowTargetAge,
    /// The child's wallet is paused.
    EmergencyPaused,
    /// The institution is not listed, or not active.
    InstitutionNotApproved,
}

impl WalletError {
    /// The class that each failure belongs to.
    pub open spec fn spec_kind(self) -> ErrorKind {
        match self {
            WalletError::Unauthorized => ErrorKind::Unauthorized,
            WalletError::NotInitialized => ErrorKind::NotFound,
            WalletError::ProfileNotFound => ErrorKind::NotFound,
            WalletError::PlanNotFound => ErrorKind::NotFound,
            WalletError::GuardianNotFound => ErrorKind::NotFound,
            WalletError::InstitutionNotFound => ErrorKind::NotFound,
            WalletError::StrategyNotFound => ErrorKind::NotFound,
            WalletError::InstitutionNotApproved => ErrorKind::NotFound,
            WalletError::AlreadyInitialized => ErrorKind::AlreadyExists,
            WalletError::DuplicateGuardian => ErrorKind::AlreadyExists,
            WalletError::InstitutionAlreadyApproved => ErrorKind::AlreadyExists,
            WalletError::InvalidAmount => ErrorKind::InvalidArgument,
            WalletError::InvalidPeriods => ErrorKind::InvalidArgument,
            WalletError::InvalidTargetAge => ErrorKind::InvalidArgument,
            WalletError::InvalidTargetAmount => ErrorKind::InvalidArgument,
            WalletError::InvalidApprovalCount => ErrorKind::InvalidArgument,
            WalletError::AllocationMismatch => ErrorKind::InvalidArgument,
            WalletError::InvalidRiskLevel => ErrorKind::InvalidArgument,
            WalletError::CannotRemoveOwner => ErrorKind::InvalidArgument,
            WalletError::CannotChangeOwnerRole => ErrorKind::InvalidArgument,
            WalletError::OwnerRoleReserved => ErrorKind::InvalidArgument,
            WalletError::Overflow => ErrorKind::InvalidArgument,
            WalletError::PlanNotActive => ErrorKind::InvalidStateTransition,
            WalletError::PaymentNotDue => ErrorKind::InvalidStateTransition,
            WalletError::InvalidStateTransition => ErrorKind::InvalidStateTransition,
            WalletError::InsufficientBalance => ErrorKind::InsufficientFunds,
            WalletError::BelowTargetAge => ErrorKind::PolicyViolation,
            WalletError::EmergencyPaused => ErrorKind::PolicyViolation,
        }
    }

    /// The class of this failure.
    pub fn kind(&self) -> (r: ErrorKind)
        ensures
            r == self.spec_kind(),
    {
        match self {
            WalletError::Unauthorized => ErrorKind::Unauthorized,
            WalletError::NotInitialized
            | WalletError::ProfileNotFound
            | WalletError::PlanNotFound
            | WalletError::GuardianNotFound
            | WalletError::InstitutionNotFound
            | WalletError::StrategyNotFound
            | WalletError::InstitutionNotApproved => ErrorKind::NotFound,
            WalletError::AlreadyInitialized
            | WalletError::DuplicateGuardian
            | WalletError::InstitutionAlreadyApproved => ErrorKind::AlreadyExists,
            WalletError::InvalidAmount
            | WalletError::InvalidPeriods
            | WalletError::InvalidTargetAge
            | WalletError::InvalidTargetAmount
            | WalletError::InvalidApprovalCount
            | WalletError::AllocationMismatch
            | WalletError::InvalidRiskLevel
            | WalletError::CannotRemoveOwner
            | WalletError::CannotChangeOwnerRole
            | WalletError::OwnerRoleReserved
            | WalletError::Overflow => ErrorKind::InvalidArgument,
            WalletError::PlanNotActive
            | WalletError::PaymentNotDue
            | WalletError::InvalidStateTransition => ErrorKind::InvalidStateTransition,
            WalletError::InsufficientBalance => ErrorKind::InsufficientFunds,
            WalletError::BelowTargetAge | WalletError::EmergencyPaused => ErrorKind::PolicyViolation,
        }
    }
}

/// The result of an operation that hands nothing back: `Ok` where no failure
/// applies, else the failure.
pub open spec fn to_result(failure: Option<WalletError>) -> Result<(), WalletError> {
    match failure {
        Some(e) => Err(e),
        None => Ok(()),
    }
}

} // verus!
