//! The wallet of each child: its profile and balance, the institutions that
//! may be paid, and the record of what came in and what went out.

use crate::address::Address;
use crate::error::{to_result, WalletError};
use crate::guardian::{
    initialize_failure, initialized, owner_failure, Guardian, GuardianContract, GuardianSystemView,
};
use crate::investment_manager::{
    is_active_for, yield_total, InvestmentManager, InvestmentPlan, LedgerView,
};
use vstd::prelude::*;

verus! {

/// The number of seconds in a year of 365 days.
pub const SECONDS_PER_YEAR: u64 = 31_536_000;

/// The lowest target age that a profile may have.
pub const MIN_TARGET_AGE: u32 = 18;

/// What kind of institution may be paid.
#[derive(Clone, Copy, Debug, PartialEq, Eq, Structural)]
pub enum InstitutionType {
    Healthcare,
    Education,
    Both,
}

/// An institution that the Owner has approved for payments. A listed
/// institution is never taken off the list, only made inactive.
#[derive(Debug, PartialEq, Eq)]
pub struct ApprovedInstitution {
    pub address: Address,
    pub name: String,
    pub institution_type: InstitutionType,
    pub approved_at: u64,
    pub approved_by: Address,
    pub is_active: bool,
}

impl Clone for ApprovedInstitution {
    fn clone(&self) -> (r: Self)
        ensures
            r == *self,
    {
        ApprovedInstitution {
            address: self.address.clone(),
            name: self.name.clone(),
            institution_type: self.institution_type,
            approved_at: self.approved_at,
            approved_by: self.approved_by.clone(),
            is_active: self.is_active,
        }
    }
}

/// Who the child is, what is saved for, and how much is there.
#[derive(Debug, PartialEq, Eq)]
pub struct ChildProfile {
    pub name: String,
    pub birth_date: u64,
    pub target_age: u32,
    pub target_amount: i128,
    pub current_balance: i128,
    pub created_at: u64,
    pub owner: Address,
    pub guardian_system_id: u64,
}

impl Clone for ChildProfile {
    fn clone(&self) -> (r: Self)
        ensures
            r == *self,
    {
        ChildProfile {
            name: self.name.clone(),
            birth_date: self.birth_date,
            target_age: self.target_age,
            target_amount: self.target_amount,
            current_balance: self.current_balance,
            created_at: self.created_at,
            owner: self.owner.clone(),
            guardian_system_id: self.guardian_system_id,
        }
    }
}

impl ChildProfile {
    /// Whether the child has reached the target age at the time `now`.
    pub fn is_old_enough(&self, now: u64) -> (r: bool)
        ensures
            r == old_enough(*self, now),
    {
        if now < self.birth_date {
            false
        } else {
            (now - self.birth_date) / SECONDS_PER_YEAR >= self.target_age as u64
        }
    }
}

/// One amount that came in.
#[derive(Debug, PartialEq, Eq)]
pub struct Investment {
    pub amount: i128,
    pub timestamp: u64,
    pub investor: Address,
}

impl Clone for Investment {
    fn clone(&self) -> (r: Self)
        ensures
            r == *self,
    {
        Investment {
            amount: self.amount,
            timestamp: self.timestamp,
            investor: self.investor.clone(),
        }
    }
}

/// One amount that went out, to an approved institution.
#[derive(Debug, PartialEq, Eq)]
pub struct InstitutionPayment {
    pub amount: i128,
    pub institution: Address,
    pub institution_name: String,
    pub payment_purpose: String,
    pub timestamp: u64,
    pub paid_by: Address,
}

impl Clone for InstitutionPayment {
    fn clone(&self) -> (r: Self)
        ensures
            r == *self,
    {
        InstitutionPayment {
            amount: self.amount,
            institution: self.institution.clone(),
            institution_name: self.institution_name.clone(),
            payment_purpose: self.payment_purpose.clone(),
            timestamp: self.timestamp,
            paid_by: self.paid_by.clone(),
        }
    }
}

/// All that is known of one child, gathered at one moment.
#[derive(Debug, PartialEq, Eq)]
pub struct ComprehensiveReport {
    pub child_profile: ChildProfile,
    pub guardians: Vec<Guardian>,
    pub total_balance: i128,
    pub total_yield: i128,
    pub active_investment_plans: Vec<InvestmentPlan>,
    pub investment_history: Vec<Investment>,
    pub institution_payments: Vec<InstitutionPayment>,
}

/// A report as a mathematical value.
pub struct ReportView {
    pub child_profile: ChildProfile,
    pub guardians: Seq<Guardian>,
    pub total_balance: i128,
    pub total_yield: i128,
    pub active_investment_plans: Seq<InvestmentPlan>,
    pub investment_history: Seq<Investment>,
    pub institution_payments: Seq<InstitutionPayment>,
}

impl View for ComprehensiveReport {
    type V = ReportView;

    open spec fn view(&self) -> ReportView {
        ReportView {
            child_profile: self.child_profile,
            guardians: self.guardians@,
            total_balance: self.total_balance,
            total_yield: self.total_yield,
            active_investment_plans: self.active_investment_plans@,
            investment_history: self.investment_history@,
            institution_payments: self.institution_payments@,
        }
    }
}

/// All that the wallet holds for one child.
struct ChildAccount {
    profile: ChildProfile,
    investments: Vec<Investment>,
    institutions: Vec<ApprovedInstitution>,
    payments: Vec<InstitutionPayment>,
    paused: bool,
}

/// One child's account as a mathematical value.
pub struct AccountView {
    pub profile: ChildProfile,
    pub investments: Seq<Investment>,
    pub institutions: Seq<ApprovedInstitution>,
    pub payments: Seq<InstitutionPayment>,
    pub paused: bool,
}

impl View for ChildAccount {
    type V = AccountView;

    closed spec fn view(&self) -> AccountView {
        AccountView {
            profile: self.profile,
            investments: self.investments@,
            institutions: self.institutions@,
            payments: self.payments@,
            paused: self.paused,
        }
    }
}

/// The child's age in whole years of 365 days at the time `now`.
pub open spec fn age_in_years(birth_date: u64, now: u64) -> int {
    (now - birth_date) / (SECONDS_PER_YEAR as int)
}

/// Whether the child has reached the target age at the time `now`.
pub open spec fn old_enough(profile: ChildProfile, now: u64) -> bool {
    age_in_years(profile.birth_date, now) >= profile.target_age
}

/// The sum of all amounts that came in.
pub open spec fn total_invested(investments: Seq<Investment>) -> int
    decreases investments.len(),
{
    if investments.len() == 0 {
        0
    } else {
        total_invested(investments.drop_last()) + investments.last().amount
    }
}

/// The sum of all amounts that went out.
pub open spec fn total_paid(payments: Seq<InstitutionPayment>) -> int
    decreases payments.len(),
{
    if payments.len() == 0 {
        0
    } else {
        total_paid(payments.drop_last()) + payments.last().amount
    }
}

/// Whether an institution with this address is on the list, active or not.
pub open spec fn is_listed(institutions: Seq<ApprovedInstitution>, address: Seq<char>) -> bool {
    exists|i: int| 0 <= i < institutions.len() && (#[trigger] institutions[i]).address@ == address
}

/// The place of the institution with this address, where it is listed.
pub open spec fn institution_index(institutions: Seq<ApprovedInstitution>, address: Seq<char>) -> int {
    choose|i: int| 0 <= i < institutions.len() && (#[trigger] institutions[i]).address@ == address
}

/// Whether an institution with this address is on the list and active.
pub open spec fn is_approved(institutions: Seq<ApprovedInstitution>, address: Seq<char>) -> bool {
    exists|i: int|
        0 <= i < institutions.len() && (#[trigger] institutions[i]).address@ == address
            && institutions[i].is_active
}

/// What holds of every account: the profile's target age and amount are in
/// range; the balance is what came in less what went out, and not negative;
/// every recorded amount is positive; no institution is listed twice; and
/// every payment went to a listed institution at a time when the child had
/// reached the target age.
pub open spec fn valid_account(a: AccountView) -> bool {
    &&& a.profile.target_age >= MIN_TARGET_AGE
    &&& a.profile.target_amount > 0
    &&& a.profile.current_balance >= 0
    &&& a.profile.current_balance == total_invested(a.investments) - total_paid(a.payments)
    &&& forall|i: int| 0 <= i < a.investments.len() ==> (#[trigger] a.investments[i]).amount > 0
    &&& forall|i: int|
        0 <= i < a.payments.len() ==> {
            &&& (#[trigger] a.payments[i]).amount > 0
            &&& old_enough(a.profile, a.payments[i].timestamp)
            &&& is_listed(a.institutions, a.payments[i].institution@)
        }
    &&& forall|i: int, j: int|
        0 <= i < j < a.institutions.len() ==> (#[trigger] a.institutions[i]).address@ != (
        #[trigger] a.institutions[j]).address@
}

/// What holds of every wallet: each account is valid, and its guardian
/// system is filed under the child's own identifier.
pub open spec fn valid_wallet(w: Seq<AccountView>) -> bool {
    forall|c: int|
        0 <= c < w.len() ==> valid_account(#[trigger] w[c]) && w[c].profile.guardian_system_id == c
}

/// The account of a child whose profile was just created.
pub open spec fn fresh_account(profile: ChildProfile) -> AccountView {
    AccountView {
        profile,
        investments: Seq::empty(),
        institutions: Seq::empty(),
        payments: Seq::empty(),
        paused: false,
    }
}

/// Whether the child's wallet is paused. A child without a profile is not
/// paused.
pub open spec fn is_paused(w: Seq<AccountView>, child_id: u64) -> bool {
    child_id < w.len() && w[child_id as int].paused
}

/// Why an operation on a child's account is refused at the door, if it is:
/// the child has no profile, or its wallet is paused.
pub open spec fn gate_failure(w: Seq<AccountView>, child_id: u64) -> Option<WalletError> {
    if child_id >= w.len() {
        Some(WalletError::ProfileNotFound)
    } else if w[child_id as int].paused {
        Some(WalletError::EmergencyPaused)
    } else {
        None
    }
}

/// Why `create_child_profile` fails, if it does.
pub open spec fn create_child_profile_failure(
    w: Seq<AccountView>,
    registry: Map<u64, GuardianSystemView>,
    target_age: u32,
    target_amount: i128,
) -> Option<WalletError> {
    if target_age < MIN_TARGET_AGE {
        Some(WalletError::InvalidTargetAge)
    } else if target_amount <= 0 {
        Some(WalletError::InvalidTargetAmount)
    } else {
        initialize_failure(registry, w.len() as u64)
    }
}

/// Why `invest` fails, if it does.
pub open spec fn invest_failure(w: Seq<AccountView>, child_id: u64, amount: i128) -> Option<
    WalletError,
> {
    if gate_failure(w, child_id) is Some {
        gate_failure(w, child_id)
    } else if amount <= 0 {
        Some(WalletError::InvalidAmount)
    } else if w[child_id as int].profile.current_balance + amount > i128::MAX {
        Some(WalletError::Overflow)
    } else {
        None
    }
}

/// The wallet after a successful `invest`: the balance has grown by the
/// amount, and the investment stands last in the child's record.
pub open spec fn invested(w: Seq<AccountView>, child_id: u64, investment: Investment) -> Seq<
    AccountView,
> {
    let a = w[child_id as int];
    w.update(
        child_id as int,
        AccountView {
            profile: ChildProfile {
                current_balance: (a.profile.current_balance + investment.amount) as i128,
                ..a.profile
            },
            investments: a.investments.push(investment),
            ..a
        },
    )
}

/// Why `pay_to_institution` fails, if it does.
pub open spec fn pay_to_institution_failure(
    w: Seq<AccountView>,
    child_id: u64,
    institution: Seq<char>,
    amount: i128,
    now: u64,
) -> Option<WalletError> {
    if gate_failure(w, child_id) is Some {
        gate_failure(w, child_id)
    } else if amount <= 0 {
        Some(WalletError::InvalidAmount)
    } else if !old_enough(w[child_id as int].profile, now) {
        Some(WalletError::BelowTargetAge)
    } else if amount > w[child_id as int].profile.current_balance {
        Some(WalletError::InsufficientBalance)
    } else if !is_approved(w[child_id as int].institutions, institution) {
        Some(WalletError::InstitutionNotApproved)
    } else {
        None
    }
}

/// The wallet after a successful `pay_to_institution`: the balance has
/// shrunk by the amount, and the payment stands last in the child's record.
pub open spec fn paid(w: Seq<AccountView>, child_id: u64, payment: InstitutionPayment) -> Seq<
    AccountView,
> {
    let a = w[child_id as int];
    w.update(
        child_id as int,
        AccountView {
            profile: ChildProfile {
                current_balance: (a.profile.current_balance - payment.amount) as i128,
                ..a.profile
            },
            payments: a.payments.push(payment),
            ..a
        },
    )
}

/// The profile that `create_child_profile` files under `child_id`.
pub open spec fn new_profile(
    child_id: u64,
    owner: Address,
    name: String,
    birth_date: u64,
    target_age: u32,
    target_amount: i128,
    now: u64,
) -> ChildProfile {
    ChildProfile {
        name,
        birth_date,
        target_age,
        target_amount,
        current_balance: 0,
        created_at: now,
        owner,
        guardian_system_id: child_id,
    }
}

/// An investment as it is recorded.
pub open spec fn new_investment(amount: i128, now: u64, investor: Address) -> Investment {
    Investment { amount, timestamp: now, investor }
}

/// An institution as it is listed when it is approved: active.
pub open spec fn new_institution(
    address: Address,
    name: String,
    institution_type: InstitutionType,
    now: u64,
    approved_by: Address,
) -> ApprovedInstitution {
    ApprovedInstitution {
        address,
        name,
        institution_type,
        approved_at: now,
        approved_by,
        is_active: true,
    }
}

/// Why `add_approved_institution` fails, if it does.
pub open spec fn add_approved_institution_failure(
    w: Seq<AccountView>,
    registry: Map<u64, GuardianSystemView>,
    child_id: u64,
    caller: Seq<char>,
    institution: Seq<char>,
) -> Option<WalletError> {
    if gate_failure(w, child_id) is Some {
        gate_failure(w, child_id)
    } else if owner_failure(registry, child_id, caller) is Some {
        owner_failure(registry, child_id, caller)
    } else if is_listed(w[child_id as int].institutions, institution) {
        Some(WalletError::InstitutionAlreadyApproved)
    } else {
        None
    }
}

/// The wallet after a successful `add_approved_institution`: the
/// institution stands last in the child's list.
pub open spec fn institution_added(
    w: Seq<AccountView>,
    child_id: u64,
    institution: ApprovedInstitution,
) -> Seq<AccountView> {
    let a = w[child_id as int];
    w.update(child_id as int, AccountView { institutions: a.institutions.push(institution), ..a })
}

/// Why `deactivate_institution` fails, if it does.
pub open spec fn deactivate_institution_failure(
    w: Seq<AccountView>,
    registry: Map<u64, GuardianSystemView>,
    child_id: u64,
    caller: Seq<char>,
    institution: Seq<char>,
) -> Option<WalletError> {
    if gate_failure(w, child_id) is Some {
        gate_failure(w, child_id)
    } else if owner_failure(registry, child_id, caller) is Some {
        owner_failure(registry, child_id, caller)
    } else if !is_listed(w[child_id as int].institutions, institution) {
        Some(WalletError::InstitutionNotFound)
    } else {
        None
    }
}

/// The wallet after a successful `deactivate_institution`: the institution
/// with this address stays where it is on the list and is not active.
pub open spec fn institution_deactivated(
    w: Seq<AccountView>,
    child_id: u64,
    institution: Seq<char>,
) -> Seq<AccountView> {
    let a = w[child_id as int];
    let i = institution_index(a.institutions, institution);
    w.update(
        child_id as int,
        AccountView {
            institutions: a.institutions.update(
                i,
                ApprovedInstitution { is_active: false, ..a.institutions[i] },
            ),
            ..a
        },
    )
}

/// The record of a payment to the institution with this address, under the
/// name by which the institution is listed.
pub open spec fn payment_record(
    a: AccountView,
    caller: Address,
    institution: Address,
    amount: i128,
    payment_purpose: String,
    now: u64,
) -> InstitutionPayment {
    InstitutionPayment {
        amount,
        institution,
        institution_name: a.institutions[institution_index(a.institutions, institution@)].name,
        payment_purpose,
        timestamp: now,
        paid_by: caller,
    }
}

/// The wallet after a successful `emergency_pause`.
pub open spec fn paused(w: Seq<AccountView>, child_id: u64) -> Seq<AccountView> {
    w.update(child_id as int, AccountView { paused: true, ..w[child_id as int] })
}

/// Why `get_comprehensive_report` fails, if it does.
pub open spec fn report_failure(
    w: Seq<AccountView>,
    registry: Map<u64, GuardianSystemView>,
    child_id: u64,
) -> Option<WalletError> {
    if child_id >= w.len() {
        Some(WalletError::ProfileNotFound)
    } else if !registry.contains_key(child_id) {
        Some(WalletError::NotInitialized)
    } else {
        None
    }
}

/// The report on a child: its profile and balance, its guardians, the sum
/// of its yields, its active plans, and the records of what came in and
/// what went out.
pub open spec fn report_of(
    a: AccountView,
    guardians: Seq<Guardian>,
    l: LedgerView,
    child_id: u64,
) -> ReportView {
    ReportView {
        child_profile: a.profile,
        guardians,
        total_balance: a.profile.current_balance,
        total_yield: yield_total(l.yields, child_id) as i128,
        active_investment_plans: l.plans.filter(is_active_for(child_id)),
        investment_history: a.investments,
        institution_payments: a.payments,
    }
}

/// The place of the first institution with this address.
fn find_institution(institutions: &Vec<ApprovedInstitution>, address: &Address) -> (r: Option<usize>)
    ensures
        match r {
            Some(i) => i < institutions@.len() && institutions@[i as int].address@ == address@
                && forall|j: int|
                0 <= j < i ==> (#[trigger] institutions@[j]).address@ != address@,
            None => !is_listed(institutions@, address@),
        },
{
    let mut i: usize = 0;
    while i < institutions.len()
        invariant
            i <= institutions@.len(),
            forall|j: int| 0 <= j < i ==> (#[trigger] institutions@[j]).address@ != address@,
        decreases institutions@.len() - i,
    {
        if institutions[i].address.same(address) {
            return Some(i);
        }
        i += 1;
    }
    None
}

/// Where no institution is listed twice, the one place at which an address
/// is found is its place, and the address is approved exactly when the
/// institution there is active.
pub proof fn institution_index_is_unique(a: AccountView, address: Seq<char>, i: int)
    requires
        valid_account(a),
        0 <= i < a.institutions.len(),
        a.institutions[i].address@ == address,
    ensures
        is_listed(a.institutions, address),
        institution_index(a.institutions, address) == i,
        is_approved(a.institutions, address) <==> a.institutions[i].is_active,
{
    let k = institution_index(a.institutions, address);
    if k < i {
        assert(a.institutions[k].address@ != a.institutions[i].address@);
    }
    if i < k {
        assert(a.institutions[i].address@ != a.institutions[k].address@);
    }
    if is_approved(a.institutions, address) {
        let o = choose|o: int|
            0 <= o < a.institutions.len() && (#[trigger] a.institutions[o]).address@ == address
                && a.institutions[o].is_active;
        if o < i {
            assert(a.institutions[o].address@ != a.institutions[i].address@);
        }
        if i < o {
            assert(a.institutions[i].address@ != a.institutions[o].address@);
        }
    }
}

/// The sum of what came in grows by the amount of a new investment.
pub proof fn total_invested_push(investments: Seq<Investment>, investment: Investment)
    ensures
        total_invested(investments.push(investment)) == total_invested(investments)
            + investment.amount,
{
    assert(investments.push(investment).drop_last() =~= investments);
}

/// The sum of what went out grows by the amount of a new payment.
pub proof fn total_paid_push(payments: Seq<InstitutionPayment>, payment: InstitutionPayment)
    ensures
        total_paid(payments.push(payment)) == total_paid(payments) + payment.amount,
{
    assert(payments.push(payment).drop_last() =~= payments);
}

/// A wallet stays valid when one account is replaced by a valid one with
/// the same guardian system.
pub proof fn update_keeps_valid(w: Seq<AccountView>, child_id: u64, a: AccountView)
    requires
        valid_wallet(w),
        child_id < w.len(),
        valid_account(a),
        a.profile.guardian_system_id == w[child_id as int].profile.guardian_system_id,
    ensures
        valid_wallet(w.update(child_id as int, a)),
{
    let after = w.update(child_id as int, a);
    assert forall|c: int| 0 <= c < after.len() implies valid_account(#[trigger] after[c])
        && after[c].profile.guardian_system_id == c by {
        if c != child_id {
            assert(after[c] == w[c]);
        }
    }
}

/// A wallet stays valid under a successful `invest`.
pub proof fn invest_keeps_valid(w: Seq<AccountView>, child_id: u64, investment: Investment)
    requires
        valid_wallet(w),
        invest_failure(w, child_id, investment.amount) is None,
    ensures
        valid_wallet(invested(w, child_id, investment)),
{
    let a = w[child_id as int];
    let b = invested(w, child_id, investment)[child_id as int];
    total_invested_push(a.investments, investment);
    assert forall|i: int| 0 <= i < b.investments.len() implies (#[trigger] b.investments[i]).amount
        > 0 by {
        if i < a.investments.len() {
            assert(b.investments[i] == a.investments[i]);
        }
    }
    assert forall|i: int| 0 <= i < b.payments.len() implies {
        &&& (#[trigger] b.payments[i]).amount > 0
        &&& old_enough(b.profile, b.payments[i].timestamp)
        &&& is_listed(b.institutions, b.payments[i].institution@)
    } by {
        assert(b.payments[i] == a.payments[i]);
    }
    assert(valid_account(b));
    update_keeps_valid(w, child_id, b);
}

/// A wallet stays valid under a successful `pay_to_institution`.
pub proof fn pay_keeps_valid(w: Seq<AccountView>, child_id: u64, payment: InstitutionPayment)
    requires
        valid_wallet(w),
        pay_to_institution_failure(
            w,
            child_id,
            payment.institution@,
            payment.amount,
            payment.timestamp,
        ) is None,
    ensures
        valid_wallet(paid(w, child_id, payment)),
{
    let a = w[child_id as int];
    let b = paid(w, child_id, payment)[child_id as int];
    total_paid_push(a.payments, payment);
    assert forall|i: int| 0 <= i < b.investments.len() implies (#[trigger] b.investments[i]).amount
        > 0 by {
        assert(b.investments[i] == a.investments[i]);
    }
    assert forall|i: int| 0 <= i < b.payments.len() implies {
        &&& (#[trigger] b.payments[i]).amount > 0
        &&& old_enough(b.profile, b.payments[i].timestamp)
        &&& is_listed(b.institutions, b.payments[i].institution@)
    } by {
        if i < a.payments.len() {
            assert(b.payments[i] == a.payments[i]);
        }
    }
    assert(valid_account(b));
    update_keeps_valid(w, child_id, b);
}

/// A wallet stays valid when the institutions of one account are replaced
/// by a list that names the same addresses, and more, none of them twice.
pub proof fn institutions_keep_valid(
    w: Seq<AccountView>,
    child_id: u64,
    institutions: Seq<ApprovedInstitution>,
)
    requires
        valid_wallet(w),
        child_id < w.len(),
        forall|i: int, j: int|
            0 <= i < j < institutions.len() ==> (#[trigger] institutions[i]).address@ != (
            #[trigger] institutions[j]).address@,
        institutions.len() >= w[child_id as int].institutions.len(),
        forall|i: int|
            0 <= i < w[child_id as int].institutions.len() ==> (#[trigger] institutions[i]).address@
                == w[child_id as int].institutions[i].address@,
    ensures
        valid_wallet(
            w.update(child_id as int, AccountView { institutions, ..w[child_id as int] }),
        ),
{
    let a = w[child_id as int];
    let b = AccountView { institutions, ..a };
    assert forall|i: int| 0 <= i < b.payments.len() implies {
        &&& (#[trigger] b.payments[i]).amount > 0
        &&& old_enough(b.profile, b.payments[i].timestamp)
        &&& is_listed(b.institutions, b.payments[i].institution@)
    } by {
        assert(is_listed(a.institutions, a.payments[i].institution@));
        let k = institution_index(a.institutions, a.payments[i].institution@);
        assert(institutions[k].address@ == a.payments[i].institution@);
    }
    assert(valid_account(b));
    update_keeps_valid(w, child_id, b);
}

/// A copy of the list, investment by investment.
pub fn clone_investments(investments: &Vec<Investment>) -> (r: Vec<Investment>)
    ensures
        r@ == investments@,
{
    let mut out: Vec<Investment> = Vec::new();
    let mut i: usize = 0;
    while i < investments.len()
        invariant
            i <= investments@.len(),
            out@ == investments@.take(i as int),
        decreases investments@.len() - i,
    {
        out.push(investments[i].clone());
        proof {
            assert(out@ =~= investments@.take(i + 1));
        }
        i += 1;
    }
    proof {
        assert(investments@.take(i as int) =~= investments@);
    }
    out
}

/// A copy of the list, institution by institution.
pub fn clone_institutions(institutions: &Vec<ApprovedInstitution>) -> (r: Vec<ApprovedInstitution>)
    ensures
        r@ == institutions@,
{
    let mut out: Vec<ApprovedInstitution> = Vec::new();
    let mut i: usize = 0;
    while i < institutions.len()
        invariant
            i <= institutions@.len(),
            out@ == institutions@.take(i as int),
        decreases institutions@.len() - i,
    {
        out.push(institutions[i].clone());
        proof {
            assert(out@ =~= institutions@.take(i + 1));
        }
        i += 1;
    }
    proof {
        assert(institutions@.take(i as int) =~= institutions@);
    }
    out
}

/// A copy of the list, payment by payment.
pub fn clone_payments(payments: &Vec<InstitutionPayment>) -> (r: Vec<InstitutionPayment>)
    ensures
        r@ == payments@,
{
    let mut out: Vec<InstitutionPayment> = Vec::new();
    let mut i: usize = 0;
    while i < payments.len()
        invariant
            i <= payments@.len(),
            out@ == payments@.take(i as int),
        decreases payments@.len() - i,
    {
        out.push(payments[i].clone());
        proof {
            assert(out@ =~= payments@.take(i + 1));
        }
        i += 1;
    }
    proof {
        assert(payments@.take(i as int) =~= payments@);
    }
    out
}

/// The balance of every account is the sum of what came in less the sum of
/// what went out, and is never negative.
pub proof fn balance_is_invested_less_paid(w: Seq<AccountView>, child_id: u64)
    requires
        valid_wallet(w),
        child_id < w.len(),
    ensures
        w[child_id as int].profile.current_balance == total_invested(w[child_id as int].investments)
            - total_paid(w[child_id as int].payments),
        w[child_id as int].profile.current_balance >= 0,
{
}

/// A successful `invest` raises the balance by the amount, a successful
/// `pay_to_institution` lowers it by the amount, and each leaves the
/// wallet valid: so the balance is what came in less what went out after
/// any number of them.
pub proof fn balance_follows_each_step(
    w: Seq<AccountView>,
    child_id: u64,
    investment: Investment,
    payment: InstitutionPayment,
)
    requires
        valid_wallet(w),
    ensures
        invest_failure(w, child_id, investment.amount) is None ==> {
            let after = invested(w, child_id, investment);
            &&& valid_wallet(after)
            &&& after[child_id as int].profile.current_balance
                == w[child_id as int].profile.current_balance + investment.amount
            &&& total_invested(after[child_id as int].investments) == total_invested(
                w[child_id as int].investments,
            ) + investment.amount
            &&& after[child_id as int].payments == w[child_id as int].payments
        },
        pay_to_institution_failure(
            w,
            child_id,
            payment.institution@,
            payment.amount,
            payment.timestamp,
        ) is None ==> {
            let after = paid(w, child_id, payment);
            &&& valid_wallet(after)
            &&& after[child_id as int].profile.current_balance
                == w[child_id as int].profile.current_balance - payment.amount
            &&& total_paid(after[child_id as int].payments) == total_paid(
                w[child_id as int].payments,
            ) + payment.amount
            &&& after[child_id as int].investments == w[child_id as int].investments
        },
{
    if invest_failure(w, child_id, investment.amount) is None {
        invest_keeps_valid(w, child_id, investment);
        total_invested_push(w[child_id as int].investments, investment);
    }
    if pay_to_institution_failure(
        w,
        child_id,
        payment.institution@,
        payment.amount,
        payment.timestamp,
    ) is None {
        pay_keeps_valid(w, child_id, payment);
        total_paid_push(w[child_id as int].payments, payment);
    }
}

/// A payment of a positive amount out of a child's account is refused as
/// against the rules whenever the child's age in whole years is below the
/// target age. Where the age is reached and the wallet is not paused, only
/// the balance and the institution decide.
pub proof fn payment_waits_for_target_age(
    w: Seq<AccountView>,
    child_id: u64,
    institution: Seq<char>,
    amount: i128,
    now: u64,
)
    requires
        child_id < w.len(),
        amount > 0,
    ensures
        age_in_years(w[child_id as int].profile.birth_date, now)
            < w[child_id as int].profile.target_age ==> {
            let failure = pay_to_institution_failure(w, child_id, institution, amount, now);
            &&& failure is Some
            &&& failure->0.spec_kind() == crate::error::ErrorKind::PolicyViolation
            &&& !w[child_id as int].paused ==> failure == Some(WalletError::BelowTargetAge)
        },
        age_in_years(w[child_id as int].profile.birth_date, now)
            >= w[child_id as int].profile.target_age && !w[child_id as int].paused ==> {
            pay_to_institution_failure(w, child_id, institution, amount, now) == if amount
                > w[child_id as int].profile.current_balance {
                Some(WalletError::InsufficientBalance)
            } else if !is_approved(w[child_id as int].institutions, institution) {
                Some(WalletError::InstitutionNotApproved)
            } else {
                None
            }
        },
{
}

/// The target age is reached at the second at which the child is exactly
/// that many years of 365 days old, and not one second earlier.
pub proof fn target_age_is_reached_on_the_day(profile: ChildProfile, now: u64)
    requires
        profile.target_age >= 1,
    ensures
        now == profile.birth_date + profile.target_age * SECONDS_PER_YEAR ==> old_enough(
            profile,
            now,
        ),
        now == profile.birth_date + profile.target_age * SECONDS_PER_YEAR - 1 ==> !old_enough(
            profile,
            now,
        ),
{
}

/// One request to move money into or out of a child's account.
pub enum AccountStep {
    Invest(Investment),
    Pay(InstitutionPayment),
}

/// The wallet after one request: changed as the request says where it is
/// granted, and as it was where it is refused.
pub open spec fn wallet_after_step(w: Seq<AccountView>, child_id: u64, step: AccountStep) -> Seq<
    AccountView,
> {
    match step {
        AccountStep::Invest(investment) => if invest_failure(w, child_id, investment.amount) is None {
            invested(w, child_id, investment)
        } else {
            w
        },
        AccountStep::Pay(payment) => if pay_to_institution_failure(
            w,
            child_id,
            payment.institution@,
            payment.amount,
            payment.timestamp,
        ) is None {
            paid(w, child_id, payment)
        } else {
            w
        },
    }
}

/// The wallet after a run of requests, taken one after the other.
pub open spec fn wallet_after(w: Seq<AccountView>, child_id: u64, steps: Seq<AccountStep>) -> Seq<
    AccountView,
>
    decreases steps.len(),
{
    if steps.len() == 0 {
        w
    } else {
        wallet_after_step(wallet_after(w, child_id, steps.drop_last()), child_id, steps.last())
    }
}

/// After any run of investments and payments, granted or refused, the
/// child's balance is the sum of what came in less the sum of what went
/// out, and is not negative.
pub proof fn balance_holds_after_every_sequence(
    w: Seq<AccountView>,
    child_id: u64,
    steps: Seq<AccountStep>,
)
    requires
        valid_wallet(w),
        child_id < w.len(),
    ensures
        valid_wallet(wallet_after(w, child_id, steps)),
        wallet_after(w, child_id, steps).len() == w.len(),
        wallet_after(w, child_id, steps)[child_id as int].profile.current_balance == total_invested(
            wallet_after(w, child_id, steps)[child_id as int].investments,
        ) - total_paid(wallet_after(w, child_id, steps)[child_id as int].payments),
        wallet_after(w, child_id, steps)[child_id as int].profile.current_balance >= 0,
    decreases steps.len(),
{
    if steps.len() > 0 {
        balance_holds_after_every_sequence(w, child_id, steps.drop_last());
        let before = wallet_after(w, child_id, steps.drop_last());
        match steps.last() {
            AccountStep::Invest(investment) => {
                if invest_failure(before, child_id, investment.amount) is None {
                    invest_keeps_valid(before, child_id, investment);
                }
            },
            AccountStep::Pay(payment) => {
                if pay_to_institution_failure(
                    before,
                    child_id,
                    payment.institution@,
                    payment.amount,
                    payment.timestamp,
                ) is None {
                    pay_keeps_valid(before, child_id, payment);
                }
            },
        }
    }
}

/// The wallets of all children. A child's identifier is its place in the
/// order in which the profiles were created.
pub struct BabyWallet {
    accounts: Vec<ChildAccount>,
}

impl View for BabyWallet {
    type V = Seq<AccountView>;

    closed spec fn view(&self) -> Seq<AccountView> {
        self.accounts@.map_values(|a: ChildAccount| a@)
    }
}

impl BabyWallet {
    /// Every account is valid.
    pub open spec fn wf(&self) -> bool {
        valid_wallet(self@)
    }

    /// A wallet without any child.
    pub fn new() -> (r: BabyWallet)
        ensures
            r.wf(),
            r@ == Seq::<AccountView>::empty(),
    {
        let r = BabyWallet { accounts: Vec::new() };
        assert(r@ =~= Seq::<AccountView>::empty());
        r
    }

    /// Adds `amount` to the child's balance and records the investment with
    /// `caller` as the investor and `now` as its time. Whether the caller
    /// may invest is for the guardian registry to say, before this is called.
    pub fn invest(&mut self, caller: Address, child_id: u64, amount: i128, now: u64) -> (r: Result<
        (),
        WalletError,
    >)
        requires
            old(self).wf(),
        ensures
            final(self).wf(),
            r == to_result(invest_failure(old(self)@, child_id, amount)),
            final(self)@ == if r is Ok {
                invested(old(self)@, child_id, new_investment(amount, now, caller))
            } else {
                old(self)@
            },
    {
        if child_id >= self.accounts.len() as u64 {
            return Err(WalletError::ProfileNotFound);
        }
        let index = child_id as usize;
        let account = &self.accounts[index];
        assert(self@[index as int] == account@);
        if account.paused {
            return Err(WalletError::EmergencyPaused);
        }
        if amount <= 0 {
            return Err(WalletError::InvalidAmount);
        }
        if account.profile.current_balance > i128::MAX - amount {
            return Err(WalletError::Overflow);
        }
        let ghost investment = Investment { amount, timestamp: now, investor: caller };
        let account = &mut self.accounts[index];
        account.profile.current_balance = account.profile.current_balance + amount;
        account.investments.push(Investment { amount, timestamp: now, investor: caller });
        proof {
            assert(self@ =~= invested(old(self)@, child_id, investment));
            invest_keeps_valid(old(self)@, child_id, investment);
        }
        Ok(())
    }

    /// Creates the profile of a new child with an empty balance, and sets up
    /// the child's guardian system with `owner` as its Owner. Hands back the
    /// child's identifier: the number of profiles that were there before.
    pub fn create_child_profile(
        &mut self,
        guardians: &mut GuardianContract,
        owner: Address,
        name: String,
        birth_date: u64,
        target_age: u32,
        target_amount: i128,
        owner_name: String,
        now: u64,
    ) -> (r: Result<u64, WalletError>)
        requires
            old(self).wf(),
            old(guardians).wf(),
        ensures
            final(self).wf(),
            final(guardians).wf(),
            match r {
                Ok(child_id) => {
                    &&& create_child_profile_failure(
                        old(self)@,
                        old(guardians)@,
                        target_age,
                        target_amount,
                    ) is None
                    &&& child_id == old(self)@.len()
                    &&& final(self)@ == old(self)@.push(
                        fresh_account(
                            new_profile(
                                child_id,
                                owner,
                                name,
                                birth_date,
                                target_age,
                                target_amount,
                                now,
                            ),
                        ),
                    )
                    &&& final(guardians)@ == initialized(
                        old(guardians)@,
                        child_id,
                        owner,
                        owner_name,
                        now,
                    )
                },
                Err(e) => {
                    &&& create_child_profile_failure(
                        old(self)@,
                        old(guardians)@,
                        target_age,
                        target_amount,
                    ) == Some(e)
                    &&& final(self)@ == old(self)@
                    &&& final(guardians)@ == old(guardians)@
                },
            },
    {
        if target_age < MIN_TARGET_AGE {
            return Err(WalletError::InvalidTargetAge);
        }
        if target_amount <= 0 {
            return Err(WalletError::InvalidTargetAmount);
        }
        let child_id = self.accounts.len() as u64;
        let set_up = guardians.initialize(child_id, owner.clone(), owner_name, now);
        if let Err(e) = set_up {
            return Err(e);
        }
        let profile = ChildProfile {
            name,
            birth_date,
            target_age,
            target_amount,
            current_balance: 0,
            created_at: now,
            owner,
            guardian_system_id: child_id,
        };
        self.accounts.push(
            ChildAccount {
                profile,
                investments: Vec::new(),
                institutions: Vec::new(),
                payments: Vec::new(),
                paused: false,
            },
        );
        proof {
            let account = fresh_account(profile);
            assert(self@ =~= old(self)@.push(account));
            assert(total_invested(account.investments) == 0);
            assert(total_paid(account.payments) == 0);
            assert(valid_account(account));
            assert forall|c: int| 0 <= c < self@.len() implies valid_account(#[trigger] self@[c])
                && self@[c].profile.guardian_system_id == c by {
                if c < old(self)@.len() {
                    assert(self@[c] == old(self)@[c]);
                }
            }
        }
        Ok(child_id)
    }

    /// Puts an institution on the child's list, active, with `caller` as
    /// the one who approved it and `now` as the time. The caller must be
    /// the Owner among the child's guardians; an address that is listed,
    /// active or not, cannot be listed again.
    pub fn add_approved_institution(
        &mut self,
        guardians: &GuardianContract,
        caller: &Address,
        child_id: u64,
        institution_address: Address,
        institution_name: String,
        institution_type: InstitutionType,
        now: u64,
    ) -> (r: Result<(), WalletError>)
        requires
            old(self).wf(),
            guardians.wf(),
        ensures
            final(self).wf(),
            r == to_result(
                add_approved_institution_failure(
                    old(self)@,
                    guardians@,
                    child_id,
                    caller@,
                    institution_address@,
                ),
            ),
            final(self)@ == if r is Ok {
                institution_added(
                    old(self)@,
                    child_id,
                    new_institution(
                        institution_address,
                        institution_name,
                        institution_type,
                        now,
                        *caller,
                    ),
                )
            } else {
                old(self)@
            },
    {
        if child_id >= self.accounts.len() as u64 {
            return Err(WalletError::ProfileNotFound);
        }
        let index = child_id as usize;
        let account = &self.accounts[index];
        assert(self@[index as int] == account@);
        if account.paused {
            return Err(WalletError::EmergencyPaused);
        }
        let allowed = guardians.require_owner_permission(child_id, caller);
        if let Err(e) = allowed {
            return Err(e);
        }
        if find_institution(&account.institutions, &institution_address).is_some() {
            return Err(WalletError::InstitutionAlreadyApproved);
        }
        let institution = ApprovedInstitution {
            address: institution_address,
            name: institution_name,
            institution_type,
            approved_at: now,
            approved_by: caller.clone(),
            is_active: true,
        };
        let account = &mut self.accounts[index];
        account.institutions.push(institution);
        proof {
            let before = old(self)@[index as int].institutions;
            assert(self@ =~= institution_added(old(self)@, child_id, institution));
            assert forall|i: int, j: int| 0 <= i < j < before.push(institution).len() implies (
            #[trigger] before.push(institution)[i]).address@ != (#[trigger] before.push(
                institution,
            )[j]).address@ by {
                if j == before.len() {
                    assert(before[i].address@ != institution.address@);
                } else {
                    assert(before[i].address@ != before[j].address@);
                }
            }
            institutions_keep_valid(old(self)@, child_id, before.push(institution));
        }
        Ok(())
    }

    /// Makes the institution with this address inactive; it stays on the
    /// list. The caller must be the Owner among the child's guardians.
    pub fn deactivate_institution(
        &mut self,
        guardians: &GuardianContract,
        caller: &Address,
        child_id: u64,
        institution_address: &Address,
    ) -> (r: Result<(), WalletError>)
        requires
            old(self).wf(),
            guardians.wf(),
        ensures
            final(self).wf(),
            r == to_result(
                deactivate_institution_failure(
                    old(self)@,
                    guardians@,
                    child_id,
                    caller@,
                    institution_address@,
                ),
            ),
            final(self)@ == if r is Ok {
                institution_deactivated(old(self)@, child_id, institution_address@)
            } else {
                old(self)@
            },
    {
        if child_id >= self.accounts.len() as u64 {
            return Err(WalletError::ProfileNotFound);
        }
        let index = child_id as usize;
        let account = &self.accounts[index];
        assert(self@[index as int] == account@);
        if account.paused {
            return Err(WalletError::EmergencyPaused);
        }
        let allowed = guardians.require_owner_permission(child_id, caller);
        if let Err(e) = allowed {
            return Err(e);
        }
        let place = match find_institution(&account.institutions, institution_address) {
            None => {
                return Err(WalletError::InstitutionNotFound);
            },
            Some(i) => i,
        };
        let mut institution = account.institutions[place].clone();
        institution.is_active = false;
        let account = &mut self.accounts[index];
        account.institutions.set(place, institution);
        proof {
            let before = old(self)@[index as int].institutions;
            institution_index_is_unique(old(self)@[index as int], institution_address@, place as int);
            assert(self@ =~= institution_deactivated(old(self)@, child_id, institution_address@));
            let after = before.update(place as int, institution);
            assert forall|i: int, j: int| 0 <= i < j < after.len() implies (
            #[trigger] after[i]).address@ != (#[trigger] after[j]).address@ by {
                assert(after[i].address == before[i].address);
                assert(after[j].address == before[j].address);
                assert(before[i].address@ != before[j].address@);
            }
            assert forall|i: int| 0 <= i < before.len() implies (#[trigger] after[i]).address@
                == before[i].address@ by {}
            institutions_keep_valid(old(self)@, child_id, after);
        }
        Ok(())
    }

    /// Pays `amount` out of the child's balance to an approved, active
    /// institution, and records the payment with `caller` as the payer and
    /// `now` as its time. The amount must be positive, the child must have
    /// reached the target age, and the balance must cover the amount.
    pub fn pay_to_institution(
        &mut self,
        caller: Address,
        child_id: u64,
        institution_address: Address,
        amount: i128,
        payment_purpose: String,
        now: u64,
    ) -> (r: Result<(), WalletError>)
        requires
            old(self).wf(),
        ensures
            final(self).wf(),
            r == to_result(
                pay_to_institution_failure(old(self)@, child_id, institution_address@, amount, now),
            ),
            final(self)@ == if r is Ok {
                paid(
                    old(self)@,
                    child_id,
                    payment_record(
                        old(self)@[child_id as int],
                        caller,
                        institution_address,
                        amount,
                        payment_purpose,
                        now,
                    ),
                )
            } else {
                old(self)@
            },
    {
        if child_id >= self.accounts.len() as u64 {
            return Err(WalletError::ProfileNotFound);
        }
        let index = child_id as usize;
        let account = &self.accounts[index];
        assert(self@[index as int] == account@);
        if account.paused {
            return Err(WalletError::EmergencyPaused);
        }
        if amount <= 0 {
            return Err(WalletError::InvalidAmount);
        }
        if !account.profile.is_old_enough(now) {
            return Err(WalletError::BelowTargetAge);
        }
        if amount > account.profile.current_balance {
            return Err(WalletError::InsufficientBalance);
        }
        let place = match find_institution(&account.institutions, &institution_address) {
            None => {
                return Err(WalletError::InstitutionNotApproved);
            },
            Some(i) => i,
        };
        proof {
            institution_index_is_unique(account@, institution_address@, place as int);
        }
        if !account.institutions[place].is_active {
            return Err(WalletError::InstitutionNotApproved);
        }
        let payment = InstitutionPayment {
            amount,
            institution: institution_address,
            institution_name: account.institutions[place].name.clone(),
            payment_purpose,
            timestamp: now,
            paid_by: caller,
        };
        let ghost record = payment;
        let account = &mut self.accounts[index];
        account.profile.current_balance = account.profile.current_balance - amount;
        account.payments.push(payment);
        proof {
            assert(self@ =~= paid(old(self)@, child_id, record));
            pay_keeps_valid(old(self)@, child_id, record);
        }
        Ok(())
    }

    /// Pauses the child's wallet: from now on every operation that would
    /// change the child's account or plans is refused.
    pub fn emergency_pause(&mut self, child_id: u64) -> (r: Result<(), WalletError>)
        requires
            old(self).wf(),
        ensures
            final(self).wf(),
            match r {
                Ok(()) => child_id < old(self)@.len() && final(self)@ == paused(old(self)@, child_id),
                Err(e) => child_id >= old(self)@.len() && e == WalletError::ProfileNotFound
                    && final(self)@ == old(self)@,
            },
    {
        if child_id >= self.accounts.len() as u64 {
            return Err(WalletError::ProfileNotFound);
        }
        let index = child_id as usize;
        let account = &mut self.accounts[index];
        account.paused = true;
        proof {
            assert(self@ =~= paused(old(self)@, child_id));
            let a = old(self)@[index as int];
            let b = self@[index as int];
            assert forall|i: int| 0 <= i < b.payments.len() implies {
                &&& (#[trigger] b.payments[i]).amount > 0
                &&& old_enough(b.profile, b.payments[i].timestamp)
                &&& is_listed(b.institutions, b.payments[i].institution@)
            } by {
                assert(b.payments[i] == a.payments[i]);
            }
            assert(valid_account(b));
            update_keeps_valid(old(self)@, child_id, b);
        }
        Ok(())
    }

    /// Whether the child's wallet is paused. A child without a profile is
    /// not paused.
    pub fn is_emergency_paused(&self, child_id: u64) -> (r: bool)
        ensures
            r == is_paused(self@, child_id),
    {
        if child_id >= self.accounts.len() as u64 {
            return false;
        }
        let account = &self.accounts[child_id as usize];
        assert(self@[child_id as int] == account@);
        account.paused
    }

    /// The child's balance: what came in less what went out.
    pub fn get_balance(&self, child_id: u64) -> (r: Result<i128, WalletError>)
        requires
            self.wf(),
        ensures
            match r {
                Ok(balance) => {
                    &&& child_id < self@.len()
                    &&& balance == self@[child_id as int].profile.current_balance
                    &&& balance == total_invested(self@[child_id as int].investments) - total_paid(
                        self@[child_id as int].payments,
                    )
                    &&& balance >= 0
                },
                Err(e) => child_id >= self@.len() && e == WalletError::ProfileNotFound,
            },
    {
        if child_id >= self.accounts.len() as u64 {
            return Err(WalletError::ProfileNotFound);
        }
        let account = &self.accounts[child_id as usize];
        assert(self@[child_id as int] == account@);
        Ok(account.profile.current_balance)
    }

    /// The child's profile.
    pub fn get_child_profile(&self, child_id: u64) -> (r: Result<ChildProfile, WalletError>)
        ensures
            match r {
                Ok(profile) => child_id < self@.len() && profile == self@[child_id as int].profile,
                Err(e) => child_id >= self@.len() && e == WalletError::ProfileNotFound,
            },
    {
        if child_id >= self.accounts.len() as u64 {
            return Err(WalletError::ProfileNotFound);
        }
        let account = &self.accounts[child_id as usize];
        assert(self@[child_id as int] == account@);
        Ok(account.profile.clone())
    }

    /// All that came in for the child, oldest first.
    pub fn get_investment_history(&self, child_id: u64) -> (r: Result<Vec<Investment>, WalletError>)
        ensures
            match r {
                Ok(list) => child_id < self@.len() && list@ == self@[child_id as int].investments,
                Err(e) => child_id >= self@.len() && e == WalletError::ProfileNotFound,
            },
    {
        if child_id >= self.accounts.len() as u64 {
            return Err(WalletError::ProfileNotFound);
        }
        let account = &self.accounts[child_id as usize];
        assert(self@[child_id as int] == account@);
        Ok(clone_investments(&account.investments))
    }

    /// The institutions on the child's list, active or not, in the order in
    /// which they were approved.
    pub fn get_approved_institutions(&self, child_id: u64) -> (r: Result<
        Vec<ApprovedInstitution>,
        WalletError,
    >)
        ensures
            match r {
                Ok(list) => child_id < self@.len() && list@ == self@[child_id as int].institutions,
                Err(e) => child_id >= self@.len() && e == WalletError::ProfileNotFound,
            },
    {
        if child_id >= self.accounts.len() as u64 {
            return Err(WalletError::ProfileNotFound);
        }
        let account = &self.accounts[child_id as usize];
        assert(self@[child_id as int] == account@);
        Ok(clone_institutions(&account.institutions))
    }

    /// All that went out for the child, oldest first.
    pub fn get_institution_payments(&self, child_id: u64) -> (r: Result<
        Vec<InstitutionPayment>,
        WalletError,
    >)
        ensures
            match r {
                Ok(list) => child_id < self@.len() && list@ == self@[child_id as int].payments,
                Err(e) => child_id >= self@.len() && e == WalletError::ProfileNotFound,
            },
    {
        if child_id >= self.accounts.len() as u64 {
            return Err(WalletError::ProfileNotFound);
        }
        let account = &self.accounts[child_id as usize];
        assert(self@[child_id as int] == account@);
        Ok(clone_payments(&account.payments))
    }

    /// Whether the child has reached the target age at the time `now`.
    pub fn is_old_enough_to_spend(&self, child_id: u64, now: u64) -> (r: Result<bool, WalletError>)
        ensures
            match r {
                Ok(b) => child_id < self@.len() && b == old_enough(
                    self@[child_id as int].profile,
                    now,
                ),
                Err(e) => child_id >= self@.len() && e == WalletError::ProfileNotFound,
            },
    {
        if child_id >= self.accounts.len() as u64 {
            return Err(WalletError::ProfileNotFound);
        }
        let account = &self.accounts[child_id as usize];
        assert(self@[child_id as int] == account@);
        Ok(account.profile.is_old_enough(now))
    }

    /// Gathers all that is known of the child: what this wallet holds, the
    /// child's guardians from the registry, and its active plans and the
    /// sum of its yields from the ledger.
    pub fn get_comprehensive_report(
        &self,
        guardians: &GuardianContract,
        investments: &InvestmentManager,
        child_id: u64,
    ) -> (r: Result<ComprehensiveReport, WalletError>)
        requires
            investments.wf(),
        ensures
            match r {
                Ok(report) => {
                    &&& report_failure(self@, guardians@, child_id) is None
                    &&& report@ == report_of(
                        self@[child_id as int],
                        guardians@[child_id].guardians,
                        investments@,
                        child_id,
                    )
                },
                Err(e) => report_failure(self@, guardians@, child_id) == Some(e),
            },
    {
        if child_id >= self.accounts.len() as u64 {
            return Err(WalletError::ProfileNotFound);
        }
        let account = &self.accounts[child_id as usize];
        assert(self@[child_id as int] == account@);
        let listed = match guardians.get_guardians(child_id) {
            Err(e) => {
                return Err(e);
            },
            Ok(list) => list,
        };
        Ok(
            ComprehensiveReport {
                child_profile: account.profile.clone(),
                guardians: listed,
                total_balance: account.profile.current_balance,
                total_yield: investments.get_total_yield(child_id),
                active_investment_plans: investments.get_active_plans(child_id),
                investment_history: clone_investments(&account.investments),
                institution_payments: clone_payments(&account.payments),
            },
        )
    }
}

} // verus!
