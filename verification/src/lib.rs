//! A custodial wallet for a child: guardians with roles, a ledger of
//! investments and payments to approved institutions, and scheduled
//! investment plans. Every operation is a transition on plain values; the
//! clock and the caller's identity are arguments.

pub mod address;
pub mod error;
pub mod guardian;
pub mod investment_manager;
pub mod wallet;

pub use address::Address;
pub use error::{ErrorKind, WalletError};
pub use guardian::{Guardian, GuardianContract, GuardianRole, GuardianSystem};
pub use investment_manager::{
    InvestmentManager, InvestmentPlan, InvestmentStatus, InvestmentStrategy, InvestmentType,
    YieldRecord,
};
pub use wallet::{
    ApprovedInstitution, BabyWallet, ChildProfile, ComprehensiveReport, InstitutionPayment,
    InstitutionType, Investment,
};
