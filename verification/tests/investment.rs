use baby_wallet::{
    Address, BabyWallet, ErrorKind, GuardianContract, InvestmentManager, InvestmentStatus,
    InvestmentType, WalletError,
};

const DAY: u64 = 86_400;
const WEEK: u64 = 604_800;

fn addr(s: &str) -> Address {
    Address::new(String::from(s))
}

fn text(s: &str) -> String {
    String::from(s)
}

fn setup() -> (InvestmentManager, BabyWallet) {
    let mut wallet = BabyWallet::new();
    let mut guardians = GuardianContract::new();
    wallet
        .create_child_profile(&mut guardians, addr("owner"), text("Child"), 0, 18, 100, text("Owner"), 0)
        .unwrap();
    (InvestmentManager::new(), wallet)
}

#[test]
fn create_plan_sets_the_first_payment_by_type() {
    let (mut ledger, wallet) = setup();
    let now = 1_000_000u64;
    let cases = [
        (InvestmentType::OneTime, now),
        (InvestmentType::Weekly, now + 604_800),
        (InvestmentType::Monthly, now + 2_592_000),
        (InvestmentType::Quarterly, now + 7_776_000),
    ];
    for (i, (plan_type, due)) in cases.iter().enumerate() {
        let id = ledger.create_investment_plan(&wallet, addr("inv"), 0, *plan_type, 25, 3, now).unwrap();
        assert_eq!(id, i as u64);
        let plan = ledger.get_investment_plan(id).unwrap();
        assert_eq!(plan.id, id);
        assert_eq!(plan.child_id, 0);
        assert_eq!(plan.investor, addr("inv"));
        assert_eq!(plan.plan_type, *plan_type);
        assert_eq!(plan.amount_per_period, 25);
        assert_eq!(plan.total_periods, 3);
        assert_eq!(plan.completed_periods, 0);
        assert_eq!(plan.next_payment_date, *due);
        assert_eq!(plan.status, InvestmentStatus::Active);
        assert_eq!(plan.created_at, now);
        assert_eq!(plan.last_payment, 0);
    }
    assert_eq!(InvestmentType::OneTime.period(), 0);
    assert_eq!(InvestmentType::Weekly.period(), 7 * DAY);
    assert_eq!(InvestmentType::Monthly.period(), 30 * DAY);
    assert_eq!(InvestmentType::Quarterly.period(), 90 * DAY);
}

#[test]
fn create_plan_rejects_bad_arguments() {
    let (mut ledger, wallet) = setup();
    let zero = ledger.create_investment_plan(&wallet, addr("i"), 0, InvestmentType::Weekly, 0, 3, 5);
    assert_eq!(zero, Err(WalletError::InvalidAmount));
    let negative = ledger.create_investment_plan(&wallet, addr("i"), 0, InvestmentType::Weekly, -9, 3, 5);
    assert_eq!(negative, Err(WalletError::InvalidAmount));
    let no_periods = ledger.create_investment_plan(&wallet, addr("i"), 0, InvestmentType::Weekly, 9, 0, 5);
    assert_eq!(no_periods, Err(WalletError::InvalidPeriods));
    assert_eq!(WalletError::InvalidPeriods.kind(), ErrorKind::InvalidArgument);
    // the amount is looked at first
    let both = ledger.create_investment_plan(&wallet, addr("i"), 0, InvestmentType::Weekly, 0, 0, 5);
    assert_eq!(both, Err(WalletError::InvalidAmount));
    assert_eq!(ledger.get_investment_plan(0), Err(WalletError::PlanNotFound));
}

#[test]
fn create_plan_refuses_a_date_out_of_range() {
    let (mut ledger, wallet) = setup();
    let late = u64::MAX - WEEK + 1;
    let r = ledger.create_investment_plan(&wallet, addr("i"), 0, InvestmentType::Weekly, 9, 1, late);
    assert_eq!(r, Err(WalletError::Overflow));
    let edge = ledger.create_investment_plan(&wallet, addr("i"), 0, InvestmentType::Weekly, 9, 1, late - 1);
    assert_eq!(edge, Ok(0));
    assert_eq!(ledger.get_investment_plan(0).unwrap().next_payment_date, u64::MAX);
    let once = ledger.create_investment_plan(&wallet, addr("i"), 0, InvestmentType::OneTime, 9, 1, u64::MAX);
    assert_eq!(once, Ok(1));
}

#[test]
fn weekly_plan_advances_by_604800_seconds_and_completes() {
    let (mut ledger, wallet) = setup();
    let start = 5_000u64;
    let id = ledger.create_investment_plan(&wallet, addr("i"), 0, InvestmentType::Weekly, 10, 3, start).unwrap();
    for period in 1..=3u32 {
        let before = ledger.get_investment_plan(id).unwrap();
        assert_eq!(before.status, InvestmentStatus::Active);
        let now = before.next_payment_date;
        assert_eq!(ledger.execute_scheduled_payment(&wallet, id, now), Ok(()));
        let after = ledger.get_investment_plan(id).unwrap();
        assert_eq!(after.next_payment_date, before.next_payment_date + 604800);
        assert_eq!(after.completed_periods, period);
        assert_eq!(after.last_payment, now);
    }
    let done = ledger.get_investment_plan(id).unwrap();
    assert_eq!(done.status, InvestmentStatus::Completed);
    assert_eq!(done.completed_periods, done.total_periods);
    assert_eq!(done.next_payment_date, start + 4 * 604800);
    let more = ledger.execute_scheduled_payment(&wallet, id, u64::MAX / 2);
    assert_eq!(more, Err(WalletError::PlanNotActive));
    assert_eq!(more.unwrap_err().kind(), ErrorKind::InvalidStateTransition);
    assert_eq!(ledger.get_investment_plan(id).unwrap(), done);
}

#[test]
fn late_payment_counts_the_period_from_the_time_of_payment() {
    let (mut ledger, wallet) = setup();
    let id = ledger.create_investment_plan(&wallet, addr("i"), 0, InvestmentType::Monthly, 10, 5, 0).unwrap();
    let late = 30 * DAY + 777;
    ledger.execute_scheduled_payment(&wallet, id, late).unwrap();
    let plan = ledger.get_investment_plan(id).unwrap();
    assert_eq!(plan.next_payment_date, late + 30 * DAY);
    assert_eq!(plan.last_payment, late);
}

#[test]
fn one_time_plan_completes_with_its_only_payment() {
    let (mut ledger, wallet) = setup();
    let id = ledger.create_investment_plan(&wallet, addr("i"), 0, InvestmentType::OneTime, 10, 1, 42).unwrap();
    assert_eq!(ledger.execute_scheduled_payment(&wallet, id, 42), Ok(()));
    let plan = ledger.get_investment_plan(id).unwrap();
    assert_eq!(plan.status, InvestmentStatus::Completed);
    assert_eq!(plan.completed_periods, 1);
    assert_eq!(plan.next_payment_date, 0);
    assert_eq!(plan.last_payment, 42);
}

#[test]
fn execute_failures() {
    let (mut ledger, wallet) = setup();
    let id = ledger.create_investment_plan(&wallet, addr("i"), 0, InvestmentType::Quarterly, 10, 2, 100).unwrap();
    let unknown = ledger.execute_scheduled_payment(&wallet, 7, 1_000_000_000);
    assert_eq!(unknown, Err(WalletError::PlanNotFound));
    assert_eq!(unknown.unwrap_err().kind(), ErrorKind::NotFound);
    let due = 100 + 90 * DAY;
    let early = ledger.execute_scheduled_payment(&wallet, id, due - 1);
    assert_eq!(early, Err(WalletError::PaymentNotDue));
    ledger.pause_investment_plan(&wallet, id).unwrap();
    let paused = ledger.execute_scheduled_payment(&wallet, id, due);
    assert_eq!(paused, Err(WalletError::PlanNotActive));
    // the state is looked at before the date
    let paused_early = ledger.execute_scheduled_payment(&wallet, id, 0);
    assert_eq!(paused_early, Err(WalletError::PlanNotActive));
    ledger.resume_investment_plan(&wallet, id).unwrap();
    let overflow = ledger.execute_scheduled_payment(&wallet, id, u64::MAX);
    assert_eq!(overflow, Err(WalletError::Overflow));
    let plan = ledger.get_investment_plan(id).unwrap();
    assert_eq!(plan.completed_periods, 0);
    assert_eq!(plan.next_payment_date, due);
    assert_eq!(ledger.execute_scheduled_payment(&wallet, id, due), Ok(()));
}

#[test]
fn pause_and_resume_only_between_active_and_paused() {
    let (mut ledger, wallet) = setup();
    let id = ledger.create_investment_plan(&wallet, addr("i"), 0, InvestmentType::OneTime, 10, 1, 0).unwrap();
    let bad = Err(WalletError::InvalidStateTransition);
    assert_eq!(ledger.resume_investment_plan(&wallet, id), bad);
    assert_eq!(ledger.pause_investment_plan(&wallet, id), Ok(()));
    assert_eq!(ledger.get_investment_plan(id).unwrap().status, InvestmentStatus::Paused);
    assert_eq!(ledger.pause_investment_plan(&wallet, id), bad);
    assert_eq!(ledger.resume_investment_plan(&wallet, id), Ok(()));
    assert_eq!(ledger.get_investment_plan(id).unwrap().status, InvestmentStatus::Active);
    ledger.execute_scheduled_payment(&wallet, id, 0).unwrap();
    assert_eq!(ledger.pause_investment_plan(&wallet, id), bad);
    assert_eq!(ledger.resume_investment_plan(&wallet, id), bad);
    assert_eq!(ledger.get_investment_plan(id).unwrap().status, InvestmentStatus::Completed);
    assert_eq!(ledger.pause_investment_plan(&wallet, 3), Err(WalletError::PlanNotFound));
    assert_eq!(ledger.resume_investment_plan(&wallet, 3), Err(WalletError::PlanNotFound));
    assert_eq!(WalletError::InvalidStateTransition.kind(), ErrorKind::InvalidStateTransition);
}

#[test]
fn set_strategy_rejects_40_59_and_accepts_40_60() {
    let (mut ledger, wallet) = setup();
    let r = ledger.set_investment_strategy(&wallet, 0, 40, 59, true, 3, vec![text("a")]);
    assert_eq!(r, Err(WalletError::AllocationMismatch));
    assert_eq!(r.unwrap_err().kind(), ErrorKind::InvalidArgument);
    assert_eq!(ledger.get_investment_strategy(0), Err(WalletError::StrategyNotFound));
    let r = ledger.set_investment_strategy(&wallet, 0, 40, 60, true, 3, vec![text("a"), text("b")]);
    assert_eq!(r, Ok(()));
    let s = ledger.get_investment_strategy(0).unwrap();
    assert_eq!(s.child_id, 0);
    assert_eq!(s.stablecoin_allocation, 40);
    assert_eq!(s.defi_allocation, 60);
    assert!(s.auto_compound);
    assert_eq!(s.risk_level, 3);
    assert_eq!(s.preferred_protocols, vec![text("a"), text("b")]);
}

#[test]
fn set_strategy_checks_sum_and_risk() {
    let (mut ledger, wallet) = setup();
    let mismatch = Err(WalletError::AllocationMismatch);
    assert_eq!(ledger.set_investment_strategy(&wallet, 0, 40, 61, false, 3, vec![]), mismatch);
    assert_eq!(ledger.set_investment_strategy(&wallet, 0, 101, 0, false, 3, vec![]), mismatch);
    assert_eq!(ledger.set_investment_strategy(&wallet, 0, u32::MAX, 101, false, 3, vec![]), mismatch);
    assert_eq!(ledger.set_investment_strategy(&wallet, 0, 0, 0, false, 3, vec![]), mismatch);
    // the sum is looked at before the risk level
    assert_eq!(ledger.set_investment_strategy(&wallet, 0, 1, 1, false, 0, vec![]), mismatch);
    let risk = Err(WalletError::InvalidRiskLevel);
    assert_eq!(ledger.set_investment_strategy(&wallet, 0, 50, 50, false, 0, vec![]), risk);
    assert_eq!(ledger.set_investment_strategy(&wallet, 0, 50, 50, false, 6, vec![]), risk);
    assert_eq!(ledger.get_investment_strategy(0), Err(WalletError::StrategyNotFound));
    assert_eq!(ledger.set_investment_strategy(&wallet, 0, 0, 100, false, 1, vec![]), Ok(()));
    assert_eq!(ledger.set_investment_strategy(&wallet, 0, 100, 0, true, 5, vec![]), Ok(()));
    let s = ledger.get_investment_strategy(0).unwrap();
    assert_eq!((s.stablecoin_allocation, s.defi_allocation, s.risk_level), (100, 0, 5));
    assert_eq!(ledger.get_investment_strategy(1), Err(WalletError::StrategyNotFound));
    assert_eq!(WalletError::StrategyNotFound.kind(), ErrorKind::NotFound);
}

#[test]
fn yields_add_up_per_child() {
    let (mut ledger, wallet) = setup();
    assert_eq!(ledger.get_total_yield(0), 0);
    ledger.record_yield(&wallet, 0, 10, 150, text("pool"), 1).unwrap();
    ledger.record_yield(&wallet, 1, 1_000, 150, text("pool"), 2).unwrap();
    ledger.record_yield(&wallet, 0, 32, 175, text("vault"), 3).unwrap();
    assert_eq!(ledger.get_total_yield(0), 42);
    assert_eq!(ledger.get_total_yield(1), 1_000);
    assert_eq!(ledger.get_total_yield(2), 0);
    let history = ledger.get_yield_history(0);
    assert_eq!(history.len(), 2);
    assert_eq!(history[0].yield_amount, 10);
    assert_eq!(history[0].yield_rate, 150);
    assert_eq!(history[0].generated_at, 1);
    assert_eq!(history[0].source, text("pool"));
    assert_eq!(history[0].child_id, 0);
    assert_eq!(history[1].yield_amount, 32);
    assert_eq!(history[1].source, text("vault"));
    assert_eq!(ledger.get_yield_history(1).len(), 1);
    assert!(ledger.get_yield_history(2).is_empty());
}

#[test]
fn record_yield_failures() {
    let (mut ledger, wallet) = setup();
    assert_eq!(ledger.record_yield(&wallet, 0, 0, 1, text("s"), 1), Err(WalletError::InvalidAmount));
    assert_eq!(ledger.record_yield(&wallet, 0, -4, 1, text("s"), 1), Err(WalletError::InvalidAmount));
    assert_eq!(ledger.record_yield(&wallet, 0, i128::MAX, 1, text("s"), 1), Ok(()));
    assert_eq!(ledger.record_yield(&wallet, 0, 1, 1, text("s"), 2), Err(WalletError::Overflow));
    assert_eq!(ledger.record_yield(&wallet, 1, 1, 1, text("s"), 2), Ok(()));
    assert_eq!(ledger.get_total_yield(0), i128::MAX);
    assert_eq!(ledger.get_yield_history(0).len(), 1);
    assert_eq!(WalletError::Overflow.kind(), ErrorKind::InvalidArgument);
}

#[test]
fn active_plans_are_those_of_the_child_that_are_active() {
    let (mut ledger, wallet) = setup();
    let a = ledger.create_investment_plan(&wallet, addr("i"), 0, InvestmentType::OneTime, 1, 1, 0).unwrap();
    let b = ledger.create_investment_plan(&wallet, addr("i"), 0, InvestmentType::Weekly, 2, 2, 0).unwrap();
    let c = ledger.create_investment_plan(&wallet, addr("i"), 9, InvestmentType::Weekly, 3, 2, 0).unwrap();
    let d = ledger.create_investment_plan(&wallet, addr("i"), 0, InvestmentType::Monthly, 4, 2, 0).unwrap();
    let ids = |l: &InvestmentManager, child: u64| -> Vec<u64> {
        l.get_active_plans(child).iter().map(|p| p.id).collect()
    };
    assert_eq!(ids(&ledger, 0), vec![a, b, d]);
    assert_eq!(ids(&ledger, 9), vec![c]);
    assert!(ids(&ledger, 1).is_empty());
    ledger.pause_investment_plan(&wallet, b).unwrap();
    ledger.execute_scheduled_payment(&wallet, a, 0).unwrap();
    assert_eq!(ids(&ledger, 0), vec![d]);
    ledger.resume_investment_plan(&wallet, b).unwrap();
    assert_eq!(ids(&ledger, 0), vec![b, d]);
    assert_eq!(ledger.get_active_plans(0)[1], ledger.get_investment_plan(d).unwrap());
}

#[test]
fn emergency_pause_stops_every_change_to_the_ledger() {
    let (mut ledger, mut wallet) = setup();
    let id = ledger.create_investment_plan(&wallet, addr("i"), 0, InvestmentType::OneTime, 1, 1, 0).unwrap();
    let other = ledger.create_investment_plan(&wallet, addr("i"), 3, InvestmentType::OneTime, 1, 1, 0).unwrap();
    ledger.record_yield(&wallet, 0, 5, 1, text("s"), 1).unwrap();
    wallet.emergency_pause(0).unwrap();

    let paused = Err(WalletError::EmergencyPaused);
    assert_eq!(
        ledger.create_investment_plan(&wallet, addr("i"), 0, InvestmentType::OneTime, 0, 0, 0),
        Err(WalletError::EmergencyPaused)
    );
    assert_eq!(ledger.execute_scheduled_payment(&wallet, id, 0), paused);
    assert_eq!(ledger.pause_investment_plan(&wallet, id), paused);
    assert_eq!(ledger.resume_investment_plan(&wallet, id), paused);
    assert_eq!(ledger.set_investment_strategy(&wallet, 0, 40, 60, true, 3, vec![]), paused);
    assert_eq!(ledger.record_yield(&wallet, 0, 5, 1, text("s"), 2), paused);
    // an unknown plan comes before the pause
    assert_eq!(ledger.execute_scheduled_payment(&wallet, 50, 0), Err(WalletError::PlanNotFound));

    assert_eq!(ledger.get_total_yield(0), 5);
    assert_eq!(ledger.get_investment_plan(id).unwrap().status, InvestmentStatus::Active);
    assert_eq!(ledger.get_active_plans(0).len(), 1);
    // other children go on
    assert_eq!(ledger.execute_scheduled_payment(&wallet, other, 0), Ok(()));
    assert_eq!(ledger.record_yield(&wallet, 3, 5, 1, text("s"), 2), Ok(()));
}
