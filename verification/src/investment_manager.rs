//! Scheduled investment plans, the record of yields, and each child's
//! allocation strategy.

use crate::address::Address;
use crate::error::{to_result, WalletError};
use crate::wallet::{is_paused, AccountView, BabyWallet};
use std::collections::HashMap;
use vstd::prelude::*;
use vstd::std_specs::hash::*;

verus! {

/// The number of seconds in a day.
pub const SECONDS_PER_DAY: u64 = 86_400;

/// How often a plan pays.
#[derive(Clone, Copy, Debug, PartialEq, Eq, Structural)]
pub enum InvestmentType {
    OneTime,
    Weekly,
    Monthly,
    Quarterly,
}

/// Where a plan stands. An active plan may be paused and a paused one
/// resumed; a plan is completed once all its periods are paid.
#[derive(Clone, Copy, Debug, PartialEq, Eq, Structural)]
pub enum InvestmentStatus {
    Active,
    Paused,
    Completed,
    Cancelled,
}

/// The length of a plan's period in seconds: nothing for a single payment,
/// 7, 30 or 90 days otherwise.
pub open spec fn period_seconds(plan_type: InvestmentType) -> int {
    match plan_type {
        InvestmentType::OneTime => 0,
        InvestmentType::Weekly => 7 * SECONDS_PER_DAY,
        InvestmentType::Monthly => 30 * SECONDS_PER_DAY,
        InvestmentType::Quarterly => 90 * SECONDS_PER_DAY,
    }
}

impl InvestmentType {
    /// The length of a plan's period in seconds.
    pub fn period(&self) -> (r: u64)
        ensures
            r == period_seconds(*self),
    {
        match self {
            InvestmentType::OneTime => 0,
            InvestmentType::Weekly => 7 * SECONDS_PER_DAY,
            InvestmentType::Monthly => 30 * SECONDS_PER_DAY,
            InvestmentType::Quarterly => 90 * SECONDS_PER_DAY,
        }
    }
}

/// A plan to invest the same amount over a number of periods.
#[derive(Debug, PartialEq, Eq)]
pub struct InvestmentPlan {
    pub id: u64,
    pub child_id: u64,
    pub investor: Address,
    pub plan_type: InvestmentType,
    pub amount_per_period: i128,
    pub total_periods: u32,
    pub completed_periods: u32,
    pub next_payment_date: u64,
    pub status: InvestmentStatus,
    pub created_at: u64,
    pub last_payment: u64,
}

impl Clone for InvestmentPlan {
    fn clone(&self) -> (r: Self)
        ensures
            r == *self,
    {
        InvestmentPlan {
            id: self.id,
            child_id: self.child_id,
            investor: self.investor.clone(),
            plan_type: self.plan_type,
            amount_per_period: self.amount_per_period,
            total_periods: self.total_periods,
            completed_periods: self.completed_periods,
            next_payment_date: self.next_payment_date,
            status: self.status,
            created_at: self.created_at,
            last_payment: self.last_payment,
        }
    }
}

/// One yield that was generated for a child. The rate is in basis points.
#[derive(Debug, PartialEq, Eq)]
pub struct YieldRecord {
    pub child_id: u64,
    pub yield_amount: i128,
    pub yield_rate: i128,
    pub generated_at: u64,
    pub source: String,
}

impl Clone for YieldRecord {
    fn clone(&self) -> (r: Self)
        ensures
            r == *self,
    {
        YieldRecord {
            child_id: self.child_id,
            yield_amount: self.yield_amount,
            yield_rate: self.yield_rate,
            generated_at: self.generated_at,
            source: self.source.clone(),
        }
    }
}

/// How a child's money is to be allocated. The two allocations are
/// percentages; the risk level runs from 1 to 5.
#[derive(Debug, PartialEq, Eq)]
pub struct InvestmentStrategy {
    pub child_id: u64,
    pub stablecoin_allocation: u32,
    pub defi_allocation: u32,
    pub auto_compound: bool,
    pub risk_level: u32,
    pub preferred_protocols: Vec<String>,
}

/// A strategy as a mathematical value.
pub struct StrategyView {
    pub child_id: u64,
    pub stablecoin_allocation: u32,
    pub defi_allocation: u32,
    pub auto_compound: bool,
    pub risk_level: u32,
    pub preferred_protocols: Seq<String>,
}

impl View for InvestmentStrategy {
    type V = StrategyView;

    open spec fn view(&self) -> StrategyView {
        StrategyView {
            child_id: self.child_id,
            stablecoin_allocation: self.stablecoin_allocation,
            defi_allocation: self.defi_allocation,
            auto_compound: self.auto_compound,
            risk_level: self.risk_level,
            preferred_protocols: self.preferred_protocols@,
        }
    }
}

/// A copy of the list, text by text.
pub fn clone_strings(texts: &Vec<String>) -> (r: Vec<String>)
    ensures
        r@ == texts@,
{
    let mut out: Vec<String> = Vec::new();
    let mut i: usize = 0;
    while i < texts.len()
        invariant
            i <= texts@.len(),
            out@ == texts@.take(i as int),
        decreases texts@.len() - i,
    {
        out.push(texts[i].clone());
        proof {
            assert(out@ =~= texts@.take(i + 1));
        }
        i += 1;
    }
    proof {
        assert(texts@.take(i as int) =~= texts@);
    }
    out
}

impl Clone for InvestmentStrategy {
    fn clone(&self) -> (r: Self)
        ensures
            r@ == self@,
    {
        InvestmentStrategy {
            child_id: self.child_id,
            stablecoin_allocation: self.stablecoin_allocation,
            defi_allocation: self.defi_allocation,
            auto_compound: self.auto_compound,
            risk_level: self.risk_level,
            preferred_protocols: clone_strings(&self.preferred_protocols),
        }
    }
}

/// The ledger as a mathematical value: the plans, each at the place that
/// its identifier names; the yields, oldest first; and each child's
/// strategy.
pub struct LedgerView {
    pub plans: Seq<InvestmentPlan>,
    pub yields: Seq<YieldRecord>,
    pub strategies: Map<u64, StrategyView>,
}

/// What holds of every plan: amount and periods are positive, no more
/// periods are paid than the plan has, and the plan is completed exactly
/// when all are paid, unless it was cancelled.
pub open spec fn valid_plan(p: InvestmentPlan) -> bool {
    &&& p.amount_per_period > 0
    &&& p.total_periods > 0
    &&& p.completed_periods <= p.total_periods
    &&& (p.status == InvestmentStatus::Active || p.status == InvestmentStatus::Paused)
        ==> p.completed_periods < p.total_periods
    &&& p.status == InvestmentStatus::Completed ==> p.completed_periods == p.total_periods
}

/// What holds of every strategy: the allocations add up to 100 and the risk
/// level is between 1 and 5.
pub open spec fn valid_strategy(s: StrategyView) -> bool {
    &&& s.stablecoin_allocation + s.defi_allocation == 100
    &&& 1 <= s.risk_level <= 5
}

/// The sum of the yields that were recorded for a child.
pub open spec fn yield_total(yields: Seq<YieldRecord>, child_id: u64) -> int
    decreases yields.len(),
{
    if yields.len() == 0 {
        0
    } else {
        yield_total(yields.drop_last(), child_id) + if yields.last().child_id == child_id {
            yields.last().yield_amount as int
        } else {
            0
        }
    }
}

/// What holds of every ledger: each plan is valid and filed under its own
/// identifier, each yield is positive, each child's yields add up within
/// the range of an amount, and each strategy is valid and filed under its
/// own child.
pub open spec fn valid_ledger(l: LedgerView) -> bool {
    &&& forall|i: int| 0 <= i < l.plans.len() ==> (#[trigger] l.plans[i]).id == i && valid_plan(l.plans[i])
    &&& forall|i: int| 0 <= i < l.yields.len() ==> (#[trigger] l.yields[i]).yield_amount > 0
    &&& forall|c: u64| #[trigger] yield_total(l.yields, c) <= i128::MAX
    &&& forall|k: u64| #[trigger]
        l.strategies.contains_key(k) ==> l.strategies[k].child_id == k && valid_strategy(
            l.strategies[k],
        )
}

/// The plans of a child that are active.
pub open spec fn is_active_for(child_id: u64) -> spec_fn(InvestmentPlan) -> bool {
    |p: InvestmentPlan| p.child_id == child_id && p.status == InvestmentStatus::Active
}

/// The yields of a child.
pub open spec fn is_yield_of(child_id: u64) -> spec_fn(YieldRecord) -> bool {
    |y: YieldRecord| y.child_id == child_id
}

/// Why `create_investment_plan` fails, if it does.
pub open spec fn create_investment_plan_failure(
    w: Seq<AccountView>,
    child_id: u64,
    plan_type: InvestmentType,
    amount_per_period: i128,
    total_periods: u32,
    now: u64,
) -> Option<WalletError> {
    if is_paused(w, child_id) {
        Some(WalletError::EmergencyPaused)
    } else if amount_per_period <= 0 {
        Some(WalletError::InvalidAmount)
    } else if total_periods == 0 {
        Some(WalletError::InvalidPeriods)
    } else if now + period_seconds(plan_type) > u64::MAX {
        Some(WalletError::Overflow)
    } else {
        None
    }
}

/// The plan that `create_investment_plan` files under `id`: active, with
/// nothing paid, and its first payment due one period after `now`.
pub open spec fn new_plan(
    id: u64,
    child_id: u64,
    investor: Address,
    plan_type: InvestmentType,
    amount_per_period: i128,
    total_periods: u32,
    now: u64,
) -> InvestmentPlan {
    InvestmentPlan {
        id,
        child_id,
        investor,
        plan_type,
        amount_per_period,
        total_periods,
        completed_periods: 0,
        next_payment_date: (now + period_seconds(plan_type)) as u64,
        status: InvestmentStatus::Active,
        created_at: now,
        last_payment: 0,
    }
}

/// When the payment after one made at `now` is due: one period later, or 0
/// for a plan of a single payment.
pub open spec fn next_payment_after(plan_type: InvestmentType, now: u64) -> int {
    match plan_type {
        InvestmentType::OneTime => 0,
        _ => now + period_seconds(plan_type),
    }
}

/// Why a plan is out of reach, if it is: no plan has this identifier, or
/// the wallet of the plan's child is paused.
pub open spec fn plan_gate_failure(l: LedgerView, w: Seq<AccountView>, plan_id: u64) -> Option<
    WalletError,
> {
    if plan_id >= l.plans.len() {
        Some(WalletError::PlanNotFound)
    } else if is_paused(w, l.plans[plan_id as int].child_id) {
        Some(WalletError::EmergencyPaused)
    } else {
        None
    }
}

/// Why `execute_scheduled_payment` fails, if it does.
pub open spec fn execute_scheduled_payment_failure(
    l: LedgerView,
    w: Seq<AccountView>,
    plan_id: u64,
    now: u64,
) -> Option<WalletError> {
    if plan_gate_failure(l, w, plan_id) is Some {
        plan_gate_failure(l, w, plan_id)
    } else if l.plans[plan_id as int].status != InvestmentStatus::Active {
        Some(WalletError::PlanNotActive)
    } else if now < l.plans[plan_id as int].next_payment_date {
        Some(WalletError::PaymentNotDue)
    } else if next_payment_after(l.plans[plan_id as int].plan_type, now) > u64::MAX {
        Some(WalletError::Overflow)
    } else {
        None
    }
}

/// A plan after a payment made at `now`: one more period is paid, the next
/// payment is due one period after `now`, and the plan is completed where
/// this was its last period.
pub open spec fn plan_after_payment(p: InvestmentPlan, now: u64) -> InvestmentPlan {
    InvestmentPlan {
        completed_periods: (p.completed_periods + 1) as u32,
        last_payment: now,
        next_payment_date: next_payment_after(p.plan_type, now) as u64,
        status: if p.completed_periods + 1 >= p.total_periods {
            InvestmentStatus::Completed
        } else {
            p.status
        },
        ..p
    }
}

/// Why a change of a plan's status from `from` fails, if it does.
pub open spec fn change_status_failure(
    l: LedgerView,
    w: Seq<AccountView>,
    plan_id: u64,
    from: InvestmentStatus,
) -> Option<WalletError> {
    if plan_gate_failure(l, w, plan_id) is Some {
        plan_gate_failure(l, w, plan_id)
    } else if l.plans[plan_id as int].status != from {
        Some(WalletError::InvalidStateTransition)
    } else {
        None
    }
}

/// The ledger with one plan replaced.
pub open spec fn with_plan(l: LedgerView, plan_id: u64, p: InvestmentPlan) -> LedgerView {
    LedgerView { plans: l.plans.update(plan_id as int, p), ..l }
}

/// The ledger with one more plan, filed last.
pub open spec fn plan_filed(l: LedgerView, p: InvestmentPlan) -> LedgerView {
    LedgerView { plans: l.plans.push(p), ..l }
}

/// A plan in another state, and otherwise as it was.
pub open spec fn with_status(p: InvestmentPlan, status: InvestmentStatus) -> InvestmentPlan {
    InvestmentPlan { status, ..p }
}

/// A strategy as `set_investment_strategy` files it.
pub open spec fn new_strategy(
    child_id: u64,
    stablecoin_allocation: u32,
    defi_allocation: u32,
    auto_compound: bool,
    risk_level: u32,
    preferred_protocols: Seq<String>,
) -> StrategyView {
    StrategyView {
        child_id,
        stablecoin_allocation,
        defi_allocation,
        auto_compound,
        risk_level,
        preferred_protocols,
    }
}

/// The ledger with a child's strategy set, in place of the one it had.
pub open spec fn strategy_set(l: LedgerView, s: StrategyView) -> LedgerView {
    LedgerView { strategies: l.strategies.insert(s.child_id, s), ..l }
}

/// A yield as it is recorded.
pub open spec fn new_yield(
    child_id: u64,
    yield_amount: i128,
    yield_rate: i128,
    source: String,
    now: u64,
) -> YieldRecord {
    YieldRecord { child_id, yield_amount, yield_rate, generated_at: now, source }
}

/// The ledger with one more yield, recorded last.
pub open spec fn yield_recorded(l: LedgerView, record: YieldRecord) -> LedgerView {
    LedgerView { yields: l.yields.push(record), ..l }
}

/// Why `set_investment_strategy` fails, if it does.
pub open spec fn set_investment_strategy_failure(
    w: Seq<AccountView>,
    child_id: u64,
    stablecoin_allocation: u32,
    defi_allocation: u32,
    risk_level: u32,
) -> Option<WalletError> {
    if is_paused(w, child_id) {
        Some(WalletError::EmergencyPaused)
    } else if stablecoin_allocation + defi_allocation != 100 {
        Some(WalletError::AllocationMismatch)
    } else if risk_level < 1 || risk_level > 5 {
        Some(WalletError::InvalidRiskLevel)
    } else {
        None
    }
}

/// Why `record_yield` fails, if it does.
pub open spec fn record_yield_failure(
    l: LedgerView,
    w: Seq<AccountView>,
    child_id: u64,
    yield_amount: i128,
) -> Option<WalletError> {
    if is_paused(w, child_id) {
        Some(WalletError::EmergencyPaused)
    } else if yield_amount <= 0 {
        Some(WalletError::InvalidAmount)
    } else if yield_total(l.yields, child_id) + yield_amount > i128::MAX {
        Some(WalletError::Overflow)
    } else {
        None
    }
}

/// A child's total grows by the amount of a new yield of its own, and stays
/// as it is under a yield of another child.
pub proof fn yield_total_push(yields: Seq<YieldRecord>, record: YieldRecord, child_id: u64)
    ensures
        yield_total(yields.push(record), child_id) == yield_total(yields, child_id) + if record.child_id
            == child_id {
            record.yield_amount as int
        } else {
            0
        },
{
    assert(yields.push(record).drop_last() =~= yields);
}

/// Where every yield is positive, the total of the first `n` records is
/// not negative and not above the total of all.
pub proof fn yield_total_prefix(yields: Seq<YieldRecord>, child_id: u64, n: int)
    requires
        forall|i: int| 0 <= i < yields.len() ==> (#[trigger] yields[i]).yield_amount > 0,
        0 <= n <= yields.len(),
    ensures
        0 <= yield_total(yields.take(n), child_id) <= yield_total(yields, child_id),
    decreases yields.len(),
{
    if n == yields.len() {
        assert(yields.take(n) =~= yields);
        if n > 0 {
            yield_total_prefix(yields.drop_last(), child_id, n - 1);
            assert(yields.drop_last().take(n - 1) =~= yields.drop_last());
        }
    } else {
        yield_total_prefix(yields.drop_last(), child_id, n);
        assert(yields.drop_last().take(n) =~= yields.take(n));
    }
}

/// A ledger stays valid when one plan is replaced by a valid one with the
/// same identifier.
pub proof fn plan_update_keeps_valid(l: LedgerView, plan_id: u64, p: InvestmentPlan)
    requires
        valid_ledger(l),
        plan_id < l.plans.len(),
        valid_plan(p),
        p.id == plan_id,
    ensures
        valid_ledger(with_plan(l, plan_id, p)),
{
    let after = with_plan(l, plan_id, p);
    assert forall|i: int| 0 <= i < after.plans.len() implies (#[trigger] after.plans[i]).id == i
        && valid_plan(after.plans[i]) by {
        if i != plan_id {
            assert(after.plans[i] == l.plans[i]);
        }
    }
    assert forall|c: u64| #[trigger] yield_total(after.yields, c) <= i128::MAX by {
        assert(yield_total(l.yields, c) <= i128::MAX);
    }
}

/// A plan after payments made at the given times, one after the other.
pub open spec fn after_payments(p: InvestmentPlan, times: Seq<u64>) -> InvestmentPlan
    decreases times.len(),
{
    if times.len() == 0 {
        p
    } else {
        plan_after_payment(after_payments(p, times.drop_last()), times.last())
    }
}

/// The payment after one made at `now` under a weekly plan is due exactly
/// 604800 seconds after `now`: so a plan that is paid whenever it is due
/// moves its date by exactly one week with each payment.
pub proof fn weekly_payments_are_a_week_apart(p: InvestmentPlan, now: u64)
    requires
        p.plan_type == InvestmentType::Weekly,
        now + 604800 <= u64::MAX,
    ensures
        plan_after_payment(p, now).next_payment_date == now + 604800,
        now == p.next_payment_date ==> plan_after_payment(p, now).next_payment_date
            == p.next_payment_date + 604800,
{
}

/// An active plan stays active, and valid, while periods are left after a
/// payment, and is completed by the payment of its last period: a new plan
/// is completed by as many payments as it has periods, and by no fewer.
pub proof fn plan_completes_with_last_period(p: InvestmentPlan, times: Seq<u64>)
    requires
        valid_plan(p),
        p.status == InvestmentStatus::Active,
        p.completed_periods + times.len() <= p.total_periods,
    ensures
        valid_plan(after_payments(p, times)),
        after_payments(p, times).completed_periods == p.completed_periods + times.len(),
        after_payments(p, times).total_periods == p.total_periods,
        after_payments(p, times).id == p.id,
        after_payments(p, times).status == if p.completed_periods + times.len()
            == p.total_periods {
            InvestmentStatus::Completed
        } else {
            InvestmentStatus::Active
        },
    decreases times.len(),
{
    if times.len() > 0 {
        plan_completes_with_last_period(p, times.drop_last());
    }
}

/// A completed plan takes no further payment: the attempt is refused as a
/// step that the plan's state does not allow.
pub proof fn completed_plan_refuses_payment(
    l: LedgerView,
    w: Seq<AccountView>,
    plan_id: u64,
    now: u64,
)
    requires
        plan_id < l.plans.len(),
        l.plans[plan_id as int].status == InvestmentStatus::Completed,
    ensures
        execute_scheduled_payment_failure(l, w, plan_id, now) is Some,
        !is_paused(w, l.plans[plan_id as int].child_id) ==> {
            &&& execute_scheduled_payment_failure(l, w, plan_id, now) == Some(
                WalletError::PlanNotActive,
            )
            &&& WalletError::PlanNotActive.spec_kind()
                == crate::error::ErrorKind::InvalidStateTransition
        },
{
}

/// A ledger stays valid under a successful `execute_scheduled_payment`.
pub proof fn payment_keeps_valid(l: LedgerView, w: Seq<AccountView>, plan_id: u64, now: u64)
    requires
        valid_ledger(l),
        execute_scheduled_payment_failure(l, w, plan_id, now) is None,
    ensures
        valid_ledger(with_plan(l, plan_id, plan_after_payment(l.plans[plan_id as int], now))),
{
    plan_update_keeps_valid(l, plan_id, plan_after_payment(l.plans[plan_id as int], now));
}

/// A ledger stays valid when a valid plan is filed under the next
/// identifier.
pub proof fn plan_filed_keeps_valid(l: LedgerView, p: InvestmentPlan)
    requires
        valid_ledger(l),
        valid_plan(p),
        p.id == l.plans.len(),
    ensures
        valid_ledger(plan_filed(l, p)),
{
    let after = plan_filed(l, p);
    assert forall|i: int| 0 <= i < after.plans.len() implies (#[trigger] after.plans[i]).id == i
        && valid_plan(after.plans[i]) by {
        if i < l.plans.len() {
            assert(after.plans[i] == l.plans[i]);
        }
    }
    assert forall|c: u64| #[trigger] yield_total(after.yields, c) <= i128::MAX by {
        assert(yield_total(l.yields, c) <= i128::MAX);
    }
}

/// A ledger stays valid when a valid strategy is set.
pub proof fn strategy_set_keeps_valid(l: LedgerView, s: StrategyView)
    requires
        valid_ledger(l),
        valid_strategy(s),
    ensures
        valid_ledger(strategy_set(l, s)),
{
    let after = strategy_set(l, s);
    assert forall|k: u64| #[trigger] after.strategies.contains_key(k) implies after.strategies[k].child_id
        == k && valid_strategy(after.strategies[k]) by {
        if k != s.child_id {
            assert(l.strategies.contains_key(k));
        }
    }
    assert forall|c: u64| #[trigger] yield_total(after.yields, c) <= i128::MAX by {
        assert(yield_total(l.yields, c) <= i128::MAX);
    }
    assert forall|i: int| 0 <= i < after.plans.len() implies (#[trigger] after.plans[i]).id == i
        && valid_plan(after.plans[i]) by {
        assert(after.plans[i] == l.plans[i]);
    }
}

/// A ledger stays valid when a positive yield is recorded that keeps its
/// child's total in range.
pub proof fn yield_recorded_keeps_valid(l: LedgerView, record: YieldRecord)
    requires
        valid_ledger(l),
        record.yield_amount > 0,
        yield_total(l.yields, record.child_id) + record.yield_amount <= i128::MAX,
    ensures
        valid_ledger(yield_recorded(l, record)),
        forall|c: u64|
            yield_total(#[trigger] yield_recorded(l, record).yields, c) == yield_total(l.yields, c)
                + if c == record.child_id {
                record.yield_amount as int
            } else {
                0
            },
{
    let after = yield_recorded(l, record);
    assert forall|i: int| 0 <= i < after.yields.len() implies (#[trigger] after.yields[i]).yield_amount
        > 0 by {
        if i < l.yields.len() {
            assert(after.yields[i] == l.yields[i]);
        }
    }
    assert forall|c: u64|
        yield_total(after.yields, c) == yield_total(l.yields, c) + if c == record.child_id {
            record.yield_amount as int
        } else {
            0
        } by {
        yield_total_push(l.yields, record, c);
    }
    assert forall|c: u64| #[trigger] yield_total(after.yields, c) <= i128::MAX by {
        yield_total_push(l.yields, record, c);
        assert(yield_total(l.yields, c) <= i128::MAX);
    }
    assert forall|i: int| 0 <= i < after.plans.len() implies (#[trigger] after.plans[i]).id == i
        && valid_plan(after.plans[i]) by {
        assert(after.plans[i] == l.plans[i]);
    }
}

/// The plans, yields and strategies of all children. A plan's identifier is
/// its place in the order in which the plans were created.
pub struct InvestmentManager {
    plans: Vec<InvestmentPlan>,
    yields: Vec<YieldRecord>,
    strategies: HashMap<u64, InvestmentStrategy>,
}

impl View for InvestmentManager {
    type V = LedgerView;

    closed spec fn view(&self) -> LedgerView {
        LedgerView {
            plans: self.plans@,
            yields: self.yields@,
            strategies: self.strategies@.map_values(|s: InvestmentStrategy| s@),
        }
    }
}

impl InvestmentManager {
    /// Every plan, yield and strategy is valid.
    pub open spec fn wf(&self) -> bool {
        valid_ledger(self@)
    }

    /// A ledger without plans, yields or strategies.
    pub fn new() -> (r: InvestmentManager)
        ensures
            r.wf(),
            r@.plans == Seq::<InvestmentPlan>::empty(),
            r@.yields == Seq::<YieldRecord>::empty(),
            r@.strategies == Map::<u64, StrategyView>::empty(),
    {
        let r = InvestmentManager {
            plans: Vec::new(),
            yields: Vec::new(),
            strategies: HashMap::new(),
        };
        proof {
            assert(r@.strategies =~= Map::<u64, StrategyView>::empty());
            assert forall|c: u64| #[trigger] yield_total(r@.yields, c) <= i128::MAX by {}
        }
        r
    }

    /// Files a new plan for the child, active, with its first payment due
    /// one period after `now`. Hands back the plan's identifier: the number
    /// of plans that were there before.
    pub fn create_investment_plan(
        &mut self,
        wallet: &BabyWallet,
        investor: Address,
        child_id: u64,
        plan_type: InvestmentType,
        amount_per_period: i128,
        total_periods: u32,
        now: u64,
    ) -> (r: Result<u64, WalletError>)
        requires
            old(self).wf(),
        ensures
            final(self).wf(),
            match r {
                Ok(id) => {
                    &&& create_investment_plan_failure(
                        wallet@,
                        child_id,
                        plan_type,
                        amount_per_period,
                        total_periods,
                        now,
                    ) is None
                    &&& id == old(self)@.plans.len()
                    &&& final(self)@ == plan_filed(
                        old(self)@,
                        new_plan(
                            id,
                            child_id,
                            investor,
                            plan_type,
                            amount_per_period,
                            total_periods,
                            now,
                        ),
                    )
                },
                Err(e) => {
                    &&& create_investment_plan_failure(
                        wallet@,
                        child_id,
                        plan_type,
                        amount_per_period,
                        total_periods,
                        now,
                    ) == Some(e)
                    &&& final(self)@ == old(self)@
                },
            },
    {
        if wallet.is_emergency_paused(child_id) {
            return Err(WalletError::EmergencyPaused);
        }
        if amount_per_period <= 0 {
            return Err(WalletError::InvalidAmount);
        }
        if total_periods == 0 {
            return Err(WalletError::InvalidPeriods);
        }
        let period = plan_type.period();
        if now > u64::MAX - period {
            return Err(WalletError::Overflow);
        }
        let id = self.plans.len() as u64;
        let plan = InvestmentPlan {
            id,
            child_id,
            investor,
            plan_type,
            amount_per_period,
            total_periods,
            completed_periods: 0,
            next_payment_date: now + period,
            status: InvestmentStatus::Active,
            created_at: now,
            last_payment: 0,
        };
        self.plans.push(plan);
        proof {
            assert(self@ =~= plan_filed(old(self)@, plan));
            plan_filed_keeps_valid(old(self)@, plan);
        }
        Ok(id)
    }

    /// Pays one period of an active plan whose payment is due: one more
    /// period is paid, `now` is the time of the last payment, and the next
    /// one is due one period after `now`. With its last period the plan is
    /// completed.
    pub fn execute_scheduled_payment(&mut self, wallet: &BabyWallet, plan_id: u64, now: u64) -> (r:
        Result<(), WalletError>)
        requires
            old(self).wf(),
        ensures
            final(self).wf(),
            r == to_result(execute_scheduled_payment_failure(old(self)@, wallet@, plan_id, now)),
            final(self)@ == if r is Ok {
                with_plan(
                    old(self)@,
                    plan_id,
                    plan_after_payment(old(self)@.plans[plan_id as int], now),
                )
            } else {
                old(self)@
            },
    {
        if plan_id >= self.plans.len() as u64 {
            return Err(WalletError::PlanNotFound);
        }
        let index = plan_id as usize;
        let plan = &self.plans[index];
        if wallet.is_emergency_paused(plan.child_id) {
            return Err(WalletError::EmergencyPaused);
        }
        if plan.status != InvestmentStatus::Active {
            return Err(WalletError::PlanNotActive);
        }
        if now < plan.next_payment_date {
            return Err(WalletError::PaymentNotDue);
        }
        let next: u64 = match plan.plan_type {
            InvestmentType::OneTime => 0,
            _ => {
                let period = plan.plan_type.period();
                if now > u64::MAX - period {
                    return Err(WalletError::Overflow);
                }
                now + period
            },
        };
        let plan = &mut self.plans[index];
        plan.completed_periods = plan.completed_periods + 1;
        plan.last_payment = now;
        plan.next_payment_date = next;
        if plan.completed_periods >= plan.total_periods {
            plan.status = InvestmentStatus::Completed;
        }
        proof {
            let after = plan_after_payment(old(self)@.plans[plan_id as int], now);
            assert(self@ =~= with_plan(old(self)@, plan_id, after));
            payment_keeps_valid(old(self)@, wallet@, plan_id, now);
        }
        Ok(())
    }

    /// Pauses an active plan.
    pub fn pause_investment_plan(&mut self, wallet: &BabyWallet, plan_id: u64) -> (r: Result<
        (),
        WalletError,
    >)
        requires
            old(self).wf(),
        ensures
            final(self).wf(),
            r == to_result(
                change_status_failure(old(self)@, wallet@, plan_id, InvestmentStatus::Active),
            ),
            final(self)@ == if r is Ok {
                with_plan(
                    old(self)@,
                    plan_id,
                    with_status(old(self)@.plans[plan_id as int], InvestmentStatus::Paused),
                )
            } else {
                old(self)@
            },
    {
        self.change_status(wallet, plan_id, InvestmentStatus::Active, InvestmentStatus::Paused)
    }

    /// Takes up a paused plan again.
    pub fn resume_investment_plan(&mut self, wallet: &BabyWallet, plan_id: u64) -> (r: Result<
        (),
        WalletError,
    >)
        requires
            old(self).wf(),
        ensures
            final(self).wf(),
            r == to_result(
                change_status_failure(old(self)@, wallet@, plan_id, InvestmentStatus::Paused),
            ),
            final(self)@ == if r is Ok {
                with_plan(
                    old(self)@,
                    plan_id,
                    with_status(old(self)@.plans[plan_id as int], InvestmentStatus::Active),
                )
            } else {
                old(self)@
            },
    {
        self.change_status(wallet, plan_id, InvestmentStatus::Paused, InvestmentStatus::Active)
    }

    /// Moves a plan from one of the two states Active and Paused to the
    /// other.
    fn change_status(
        &mut self,
        wallet: &BabyWallet,
        plan_id: u64,
        from: InvestmentStatus,
        to: InvestmentStatus,
    ) -> (r: Result<(), WalletError>)
        requires
            old(self).wf(),
            from == InvestmentStatus::Active && to == InvestmentStatus::Paused || from
                == InvestmentStatus::Paused && to == InvestmentStatus::Active,
        ensures
            final(self).wf(),
            r == to_result(change_status_failure(old(self)@, wallet@, plan_id, from)),
            final(self)@ == if r is Ok {
                with_plan(old(self)@, plan_id, with_status(old(self)@.plans[plan_id as int], to))
            } else {
                old(self)@
            },
    {
        if plan_id >= self.plans.len() as u64 {
            return Err(WalletError::PlanNotFound);
        }
        let index = plan_id as usize;
        let plan = &self.plans[index];
        if wallet.is_emergency_paused(plan.child_id) {
            return Err(WalletError::EmergencyPaused);
        }
        if plan.status != from {
            return Err(WalletError::InvalidStateTransition);
        }
        let plan = &mut self.plans[index];
        plan.status = to;
        proof {
            let after = with_status(old(self)@.plans[plan_id as int], to);
            assert(self@ =~= with_plan(old(self)@, plan_id, after));
            plan_update_keeps_valid(old(self)@, plan_id, after);
        }
        Ok(())
    }

    /// Sets the child's strategy, in place of the one it had. The two
    /// allocations must add up to 100 and the risk level must be between 1
    /// and 5.
    pub fn set_investment_strategy(
        &mut self,
        wallet: &BabyWallet,
        child_id: u64,
        stablecoin_allocation: u32,
        defi_allocation: u32,
        auto_compound: bool,
        risk_level: u32,
        preferred_protocols: Vec<String>,
    ) -> (r: Result<(), WalletError>)
        requires
            old(self).wf(),
        ensures
            final(self).wf(),
            r == to_result(
                set_investment_strategy_failure(
                    wallet@,
                    child_id,
                    stablecoin_allocation,
                    defi_allocation,
                    risk_level,
                ),
            ),
            final(self)@ == if r is Ok {
                strategy_set(
                    old(self)@,
                    new_strategy(
                        child_id,
                        stablecoin_allocation,
                        defi_allocation,
                        auto_compound,
                        risk_level,
                        preferred_protocols@,
                    ),
                )
            } else {
                old(self)@
            },
    {
        broadcast use group_hash_axioms;

        if wallet.is_emergency_paused(child_id) {
            return Err(WalletError::EmergencyPaused);
        }
        if stablecoin_allocation > 100 || defi_allocation != 100 - stablecoin_allocation {
            return Err(WalletError::AllocationMismatch);
        }
        if risk_level < 1 || risk_level > 5 {
            return Err(WalletError::InvalidRiskLevel);
        }
        let strategy = InvestmentStrategy {
            child_id,
            stablecoin_allocation,
            defi_allocation,
            auto_compound,
            risk_level,
            preferred_protocols,
        };
        self.strategies.insert(child_id, strategy);
        proof {
            assert(self@.strategies =~= old(self)@.strategies.insert(child_id, strategy@));
            assert(self@ =~= strategy_set(old(self)@, strategy@));
            strategy_set_keeps_valid(old(self)@, strategy@);
        }
        Ok(())
    }

    /// Records a yield for the child, with `now` as its time. The amount
    /// must be positive, and the child's total must stay in the range of an
    /// amount.
    pub fn record_yield(
        &mut self,
        wallet: &BabyWallet,
        child_id: u64,
        yield_amount: i128,
        yield_rate: i128,
        source: String,
        now: u64,
    ) -> (r: Result<(), WalletError>)
        requires
            old(self).wf(),
        ensures
            final(self).wf(),
            r == to_result(record_yield_failure(old(self)@, wallet@, child_id, yield_amount)),
            final(self)@ == if r is Ok {
                yield_recorded(
                    old(self)@,
                    new_yield(child_id, yield_amount, yield_rate, source, now),
                )
            } else {
                old(self)@
            },
    {
        if wallet.is_emergency_paused(child_id) {
            return Err(WalletError::EmergencyPaused);
        }
        if yield_amount <= 0 {
            return Err(WalletError::InvalidAmount);
        }
        let total = self.get_total_yield(child_id);
        if total > i128::MAX - yield_amount {
            return Err(WalletError::Overflow);
        }
        let record = YieldRecord { child_id, yield_amount, yield_rate, generated_at: now, source };
        self.yields.push(record);
        proof {
            assert(self@ =~= yield_recorded(old(self)@, record));
            yield_recorded_keeps_valid(old(self)@, record);
        }
        Ok(())
    }

    /// The sum of the yields that were recorded for the child.
    pub fn get_total_yield(&self, child_id: u64) -> (r: i128)
        requires
            self.wf(),
        ensures
            r == yield_total(self@.yields, child_id),
            r >= 0,
    {
        let mut total: i128 = 0;
        let mut i: usize = 0;
        proof {
            assert(self.yields@.take(0) =~= Seq::<YieldRecord>::empty());
        }
        while i < self.yields.len()
            invariant
                self.wf(),
                i <= self.yields@.len(),
                total == yield_total(self.yields@.take(i as int), child_id),
            decreases self.yields@.len() - i,
        {
            proof {
                assert(self@.yields == self.yields@);
                yield_total_prefix(self@.yields, child_id, i + 1);
                assert(self.yields@.take(i + 1).drop_last() =~= self.yields@.take(i as int));
                assert(yield_total(self@.yields, child_id) <= i128::MAX);
            }
            if self.yields[i].child_id == child_id {
                total = total + self.yields[i].yield_amount;
            }
            i += 1;
        }
        proof {
            assert(self.yields@.take(i as int) =~= self.yields@);
            assert(self@.yields == self.yields@);
            yield_total_prefix(self@.yields, child_id, i as int);
        }
        total
    }

    /// The plan with this identifier.
    pub fn get_investment_plan(&self, plan_id: u64) -> (r: Result<InvestmentPlan, WalletError>)
        ensures
            match r {
                Ok(plan) => plan_id < self@.plans.len() && plan == self@.plans[plan_id as int],
                Err(e) => plan_id >= self@.plans.len() && e == WalletError::PlanNotFound,
            },
    {
        if plan_id >= self.plans.len() as u64 {
            return Err(WalletError::PlanNotFound);
        }
        Ok(self.plans[plan_id as usize].clone())
    }

    /// The child's active plans, in the order of their identifiers.
    pub fn get_active_plans(&self, child_id: u64) -> (r: Vec<InvestmentPlan>)
        ensures
            r@ == self@.plans.filter(is_active_for(child_id)),
    {
        let mut out: Vec<InvestmentPlan> = Vec::new();
        let mut i: usize = 0;
        proof {
            assert(self.plans@.take(0) =~= Seq::<InvestmentPlan>::empty());
            Seq::<InvestmentPlan>::empty().lemma_filter_len(is_active_for(child_id));
        }
        while i < self.plans.len()
            invariant
                i <= self.plans@.len(),
                out@ == self.plans@.take(i as int).filter(is_active_for(child_id)),
            decreases self.plans@.len() - i,
        {
            proof {
                assert(self.plans@.take(i + 1) =~= self.plans@.take(i as int).push(
                    self.plans@[i as int],
                ));
                self.plans@.take(i as int).lemma_filter_push(
                    self.plans@[i as int],
                    is_active_for(child_id),
                );
            }
            let plan = &self.plans[i];
            if plan.child_id == child_id && plan.status == InvestmentStatus::Active {
                out.push(plan.clone());
            }
            i += 1;
        }
        proof {
            assert(self.plans@.take(i as int) =~= self.plans@);
        }
        out
    }

    /// The child's strategy.
    pub fn get_investment_strategy(&self, child_id: u64) -> (r: Result<InvestmentStrategy, WalletError>)
        requires
            self.wf(),
        ensures
            match r {
                Ok(strategy) => {
                    &&& self@.strategies.contains_key(child_id)
                    &&& strategy@ == self@.strategies[child_id]
                    &&& valid_strategy(strategy@)
                },
                Err(e) => !self@.strategies.contains_key(child_id) && e
                    == WalletError::StrategyNotFound,
            },
    {
        broadcast use group_hash_axioms;

        match self.strategies.get(&child_id) {
            None => Err(WalletError::StrategyNotFound),
            Some(strategy) => {
                assert(self@.strategies.contains_key(child_id) && self@.strategies[child_id]
                    == strategy@);
                Ok(strategy.clone())
            },
        }
    }

    /// The yields that were recorded for the child, oldest first.
    pub fn get_yield_history(&self, child_id: u64) -> (r: Vec<YieldRecord>)
        ensures
            r@ == self@.yields.filter(is_yield_of(child_id)),
    {
        let mut out: Vec<YieldRecord> = Vec::new();
        let mut i: usize = 0;
        proof {
            assert(self.yields@.take(0) =~= Seq::<YieldRecord>::empty());
            Seq::<YieldRecord>::empty().lemma_filter_len(is_yield_of(child_id));
        }
        while i < self.yields.len()
            invariant
                i <= self.yields@.len(),
                out@ == self.yields@.take(i as int).filter(is_yield_of(child_id)),
            decreases self.yields@.len() - i,
        {
            proof {
                assert(self.yields@.take(i + 1) =~= self.yields@.take(i as int).push(
                    self.yields@[i as int],
                ));
                self.yields@.take(i as int).lemma_filter_push(
                    self.yields@[i as int],
                    is_yield_of(child_id),
                );
            }
            let record = &self.yields[i];
            if record.child_id == child_id {
                out.push(record.clone());
            }
            i += 1;
        }
        proof {
            assert(self.yields@.take(i as int) =~= self.yields@);
        }
        out
    }
}

} // verus!
