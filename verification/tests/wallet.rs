use baby_wallet::{
    Address, BabyWallet, ErrorKind, GuardianContract, GuardianRole, InstitutionType,
    InvestmentManager, InvestmentType, WalletError,
};

const YEAR: u64 = 365 * 24 * 60 * 60;

fn addr(s: &str) -> Address {
    Address::new(String::from(s))
}

fn text(s: &str) -> String {
    String::from(s)
}

/// A wallet with one child (identifier 0), born at `birth_date`, owned by "owner".
fn one_child(birth_date: u64) -> (BabyWallet, GuardianContract, u64) {
    let mut wallet = BabyWallet::new();
    let mut guardians = GuardianContract::new();
    let child_id = wallet
        .create_child_profile(
            &mut guardians,
            addr("owner"),
            text("Test Child"),
            birth_date,
            18u32,
            100000i128,
            text("Owner"),
            birth_date,
        )
        .unwrap();
    (wallet, guardians, child_id)
}

#[test]
fn test_basic_functionality() {
    let mut wallet = BabyWallet::new();
    let mut guardians = GuardianContract::new();

    let child_name = text("Test Child");
    let birth_date = 1000000000u64;
    let target_age = 18u32;
    let target_amount = 100000i128;
    let owner_name = text("Test Parent");

    let child_id = wallet
        .create_child_profile(
            &mut guardians,
            addr("owner"),
            child_name.clone(),
            birth_date,
            target_age,
            target_amount,
            owner_name,
            1000000000u64,
        )
        .unwrap();

    let profile = wallet.get_child_profile(child_id).unwrap();
    assert_eq!(profile.name, child_name);
    assert_eq!(profile.birth_date, birth_date);
    assert_eq!(profile.target_age, target_age);
    assert_eq!(profile.target_amount, target_amount);
    assert_eq!(profile.current_balance, 0);
}

#[test]
fn test_balance_operations() {
    let mut wallet = BabyWallet::new();
    let mut guardians = GuardianContract::new();

    let child_name = text("Test Child");
    let child_id = wallet
        .create_child_profile(
            &mut guardians,
            addr("owner"),
            child_name,
            1000000000u64,
            18u32,
            100000i128,
            text("Owner"),
            1000000000u64,
        )
        .unwrap();

    assert_eq!(wallet.get_balance(child_id).unwrap(), 0);

    wallet.invest(addr("owner"), child_id, 1000i128, 1000000001).unwrap();
    assert_eq!(wallet.get_balance(child_id).unwrap(), 1000);

    wallet.invest(addr("owner"), child_id, 500i128, 1000000002).unwrap();
    assert_eq!(wallet.get_balance(child_id).unwrap(), 1500);
}

#[test]
fn test_institution_management() {
    let mut wallet = BabyWallet::new();
    let mut guardians = GuardianContract::new();

    let child_name = text("Test Child");
    let child_id = wallet
        .create_child_profile(
            &mut guardians,
            addr("owner"),
            child_name,
            1000000000u64,
            18u32,
            100000i128,
            text("Owner"),
            1000000000u64,
        )
        .unwrap();

    let hospital_address = addr("hospital");
    let hospital_name = text("Test Hospital");

    wallet
        .add_approved_institution(
            &guardians,
            &addr("owner"),
            child_id,
            hospital_address,
            hospital_name.clone(),
            InstitutionType::Healthcare,
            1000000005,
        )
        .unwrap();

    let institutions = wallet.get_approved_institutions(child_id).unwrap();
    assert_eq!(institutions.len(), 1);
    assert_eq!(institutions.get(0).unwrap().name, hospital_name);
}

#[test]
fn test_age_check() {
    let mut wallet = BabyWallet::new();
    let mut guardians = GuardianContract::new();

    let child_name = text("Test Child");
    let now: u64 = 1_700_000_000;
    let recent_birth = now - (10 * 365 * 24 * 60 * 60);

    let child_id = wallet
        .create_child_profile(
            &mut guardians,
            addr("owner"),
            child_name,
            recent_birth,
            18u32,
            100000i128,
            text("Owner"),
            now,
        )
        .unwrap();

    assert!(!wallet.is_old_enough_to_spend(child_id, now).unwrap());
}

#[test]
fn test_emergency_functions() {
    let mut wallet = BabyWallet::new();
    let mut guardians = GuardianContract::new();

    let child_name = text("Test Child");
    let child_id = wallet
        .create_child_profile(
            &mut guardians,
            addr("owner"),
            child_name,
            1000000000u64,
            18u32,
            100000i128,
            text("Owner"),
            1000000000u64,
        )
        .unwrap();

    assert!(!wallet.is_emergency_paused(child_id));

    wallet.emergency_pause(child_id).unwrap();
    assert!(wallet.is_emergency_paused(child_id));
}

#[test]
fn create_profile_rejects_low_target_age() {
    let mut wallet = BabyWallet::new();
    let mut guardians = GuardianContract::new();
    let r = wallet.create_child_profile(
        &mut guardians,
        addr("owner"),
        text("c"),
        0,
        17,
        1,
        text("o"),
        0,
    );
    assert_eq!(r, Err(WalletError::InvalidTargetAge));
    assert_eq!(WalletError::InvalidTargetAge.kind(), ErrorKind::InvalidArgument);
    assert_eq!(wallet.get_balance(0), Err(WalletError::ProfileNotFound));
    assert_eq!(guardians.get_guardians(0), Err(WalletError::NotInitialized));
}

#[test]
fn create_profile_rejects_non_positive_target_amount() {
    let mut wallet = BabyWallet::new();
    let mut guardians = GuardianContract::new();
    let zero = wallet.create_child_profile(
        &mut guardians,
        addr("owner"),
        text("c"),
        0,
        18,
        0,
        text("o"),
        0,
    );
    assert_eq!(zero, Err(WalletError::InvalidTargetAmount));
    let negative = wallet.create_child_profile(
        &mut guardians,
        addr("owner"),
        text("c"),
        0,
        18,
        -5,
        text("o"),
        0,
    );
    assert_eq!(negative, Err(WalletError::InvalidTargetAmount));
    // the age is looked at first
    let both = wallet.create_child_profile(
        &mut guardians,
        addr("owner"),
        text("c"),
        0,
        3,
        -5,
        text("o"),
        0,
    );
    assert_eq!(both, Err(WalletError::InvalidTargetAge));
}

#[test]
fn create_profile_numbers_children_and_sets_up_guardians() {
    let mut wallet = BabyWallet::new();
    let mut guardians = GuardianContract::new();
    let a = wallet
        .create_child_profile(&mut guardians, addr("p1"), text("a"), 10, 18, 5, text("P1"), 77)
        .unwrap();
    let b = wallet
        .create_child_profile(&mut guardians, addr("p2"), text("b"), 20, 21, 6, text("P2"), 88)
        .unwrap();
    assert_eq!(a, 0);
    assert_eq!(b, 1);
    let profile = wallet.get_child_profile(b).unwrap();
    assert_eq!(profile.owner, addr("p2"));
    assert_eq!(profile.created_at, 88);
    assert_eq!(profile.guardian_system_id, 1);
    assert_eq!(profile.target_age, 21);
    let list = guardians.get_guardians(b).unwrap();
    assert_eq!(list.len(), 1);
    assert_eq!(list[0].address, addr("p2"));
    assert_eq!(list[0].name, text("P2"));
    assert_eq!(list[0].role, GuardianRole::Owner);
    assert_eq!(list[0].added_at, 88);
    assert_eq!(list[0].added_by, addr("p2"));
    assert_eq!(guardians.get_required_approvals(b), Ok(1));
    assert!(wallet.get_investment_history(a).unwrap().is_empty());
    assert!(wallet.get_approved_institutions(a).unwrap().is_empty());
    assert!(wallet.get_institution_payments(a).unwrap().is_empty());
}

#[test]
fn create_profile_fails_where_guardian_system_exists() {
    let mut wallet = BabyWallet::new();
    let mut guardians = GuardianContract::new();
    guardians.initialize(0, addr("x"), text("X"), 1).unwrap();
    let r = wallet.create_child_profile(
        &mut guardians,
        addr("owner"),
        text("c"),
        0,
        18,
        1,
        text("o"),
        0,
    );
    assert_eq!(r, Err(WalletError::AlreadyInitialized));
    assert_eq!(wallet.get_balance(0), Err(WalletError::ProfileNotFound));
    assert_eq!(guardians.get_guardians(0).unwrap()[0].address, addr("x"));
}

#[test]
fn invest_rejects_non_positive_amounts() {
    let (mut wallet, _g, child) = one_child(0);
    assert_eq!(wallet.invest(addr("i"), child, 0, 1), Err(WalletError::InvalidAmount));
    assert_eq!(wallet.invest(addr("i"), child, -1, 1), Err(WalletError::InvalidAmount));
    assert_eq!(wallet.get_balance(child), Ok(0));
    assert!(wallet.get_investment_history(child).unwrap().is_empty());
}

#[test]
fn invest_on_unknown_child_is_not_found() {
    let (mut wallet, _g, _child) = one_child(0);
    let r = wallet.invest(addr("i"), 9, 10, 1);
    assert_eq!(r, Err(WalletError::ProfileNotFound));
    assert_eq!(r.unwrap_err().kind(), ErrorKind::NotFound);
    // an unknown child comes before a bad amount
    assert_eq!(wallet.invest(addr("i"), 9, 0, 1), Err(WalletError::ProfileNotFound));
}

#[test]
fn invest_records_each_investment_in_order() {
    let (mut wallet, _g, child) = one_child(0);
    wallet.invest(addr("a"), child, 7, 100).unwrap();
    wallet.invest(addr("b"), child, 9, 200).unwrap();
    let history = wallet.get_investment_history(child).unwrap();
    assert_eq!(history.len(), 2);
    assert_eq!(history[0].amount, 7);
    assert_eq!(history[0].timestamp, 100);
    assert_eq!(history[0].investor, addr("a"));
    assert_eq!(history[1].amount, 9);
    assert_eq!(history[1].timestamp, 200);
    assert_eq!(history[1].investor, addr("b"));
    assert_eq!(wallet.get_balance(child), Ok(16));
}

#[test]
fn invest_refuses_a_balance_out_of_range() {
    let (mut wallet, _g, child) = one_child(0);
    wallet.invest(addr("a"), child, i128::MAX, 1).unwrap();
    let r = wallet.invest(addr("a"), child, 1, 2);
    assert_eq!(r, Err(WalletError::Overflow));
    assert_eq!(wallet.get_balance(child), Ok(i128::MAX));
    assert_eq!(wallet.get_investment_history(child).unwrap().len(), 1);
}

#[test]
fn invest_touches_only_its_child() {
    let mut wallet = BabyWallet::new();
    let mut guardians = GuardianContract::new();
    let a = wallet
        .create_child_profile(&mut guardians, addr("p"), text("a"), 0, 18, 5, text("P"), 0)
        .unwrap();
    let b = wallet
        .create_child_profile(&mut guardians, addr("p"), text("b"), 0, 18, 5, text("P"), 0)
        .unwrap();
    wallet.invest(addr("p"), b, 40, 1).unwrap();
    assert_eq!(wallet.get_balance(a), Ok(0));
    assert_eq!(wallet.get_balance(b), Ok(40));
}

fn approve(wallet: &mut BabyWallet, guardians: &GuardianContract, child: u64, who: &str, name: &str) {
    wallet
        .add_approved_institution(
            guardians,
            &addr("owner"),
            child,
            addr(who),
            text(name),
            InstitutionType::Education,
            5,
        )
        .unwrap();
}

#[test]
fn add_institution_needs_the_owner() {
    let (mut wallet, mut guardians, child) = one_child(0);
    guardians
        .add_guardian(child, &addr("owner"), addr("w"), text("W"), GuardianRole::Withdrawer, 1)
        .unwrap();
    let by_withdrawer = wallet.add_approved_institution(
        &guardians,
        &addr("w"),
        child,
        addr("school"),
        text("School"),
        InstitutionType::Education,
        5,
    );
    assert_eq!(by_withdrawer, Err(WalletError::Unauthorized));
    assert_eq!(by_withdrawer.unwrap_err().kind(), ErrorKind::Unauthorized);
    let by_stranger = wallet.add_approved_institution(
        &guardians,
        &addr("nobody"),
        child,
        addr("school"),
        text("School"),
        InstitutionType::Education,
        5,
    );
    assert_eq!(by_stranger, Err(WalletError::Unauthorized));
    assert!(wallet.get_approved_institutions(child).unwrap().is_empty());
}

#[test]
fn add_institution_records_all_fields() {
    let (mut wallet, guardians, child) = one_child(0);
    wallet
        .add_approved_institution(
            &guardians,
            &addr("owner"),
            child,
            addr("clinic"),
            text("Clinic"),
            InstitutionType::Both,
            321,
        )
        .unwrap();
    let list = wallet.get_approved_institutions(child).unwrap();
    assert_eq!(list.len(), 1);
    assert_eq!(list[0].address, addr("clinic"));
    assert_eq!(list[0].name, text("Clinic"));
    assert_eq!(list[0].institution_type, InstitutionType::Both);
    assert_eq!(list[0].approved_at, 321);
    assert_eq!(list[0].approved_by, addr("owner"));
    assert!(list[0].is_active);
}

#[test]
fn add_institution_twice_is_refused_even_when_inactive() {
    let (mut wallet, guardians, child) = one_child(0);
    approve(&mut wallet, &guardians, child, "school", "School");
    let again = wallet.add_approved_institution(
        &guardians,
        &addr("owner"),
        child,
        addr("school"),
        text("Other"),
        InstitutionType::Healthcare,
        6,
    );
    assert_eq!(again, Err(WalletError::InstitutionAlreadyApproved));
    assert_eq!(again.unwrap_err().kind(), ErrorKind::AlreadyExists);
    wallet.deactivate_institution(&guardians, &addr("owner"), child, &addr("school")).unwrap();
    let third = wallet.add_approved_institution(
        &guardians,
        &addr("owner"),
        child,
        addr("school"),
        text("Other"),
        InstitutionType::Healthcare,
        7,
    );
    assert_eq!(third, Err(WalletError::InstitutionAlreadyApproved));
    assert_eq!(wallet.get_approved_institutions(child).unwrap().len(), 1);
}

#[test]
fn deactivate_keeps_the_record() {
    let (mut wallet, guardians, child) = one_child(0);
    approve(&mut wallet, &guardians, child, "school", "School");
    approve(&mut wallet, &guardians, child, "clinic", "Clinic");
    wallet.deactivate_institution(&guardians, &addr("owner"), child, &addr("school")).unwrap();
    let list = wallet.get_approved_institutions(child).unwrap();
    assert_eq!(list.len(), 2);
    assert_eq!(list[0].address, addr("school"));
    assert_eq!(list[0].name, text("School"));
    assert!(!list[0].is_active);
    assert_eq!(list[1].address, addr("clinic"));
    assert!(list[1].is_active);
    // once more changes nothing
    wallet.deactivate_institution(&guardians, &addr("owner"), child, &addr("school")).unwrap();
    assert_eq!(wallet.get_approved_institutions(child).unwrap(), list);
}

#[test]
fn deactivate_unknown_institution_is_not_found() {
    let (mut wallet, guardians, child) = one_child(0);
    approve(&mut wallet, &guardians, child, "school", "School");
    let r = wallet.deactivate_institution(&guardians, &addr("owner"), child, &addr("clinic"));
    assert_eq!(r, Err(WalletError::InstitutionNotFound));
    assert_eq!(r.unwrap_err().kind(), ErrorKind::NotFound);
    let by_stranger = wallet.deactivate_institution(&guardians, &addr("x"), child, &addr("school"));
    assert_eq!(by_stranger, Err(WalletError::Unauthorized));
    assert!(wallet.get_approved_institutions(child).unwrap()[0].is_active);
}

#[test]
fn age_gate_opens_at_exact_year_equality() {
    let t0: u64 = 1_000_000_000;
    let (mut wallet, guardians, child) = one_child(t0);
    approve(&mut wallet, &guardians, child, "school", "School");
    wallet.invest(addr("owner"), child, 100, t0).unwrap();

    let day = t0 + 18 * YEAR;
    assert_eq!(wallet.is_old_enough_to_spend(child, day - 1), Ok(false));
    assert_eq!(wallet.is_old_enough_to_spend(child, day), Ok(true));

    let early = wallet.pay_to_institution(addr("owner"), child, addr("school"), 10, text("fees"), day - 1);
    assert_eq!(early, Err(WalletError::BelowTargetAge));
    assert_eq!(early.unwrap_err().kind(), ErrorKind::PolicyViolation);
    assert_eq!(wallet.get_balance(child), Ok(100));

    let on_time = wallet.pay_to_institution(addr("owner"), child, addr("school"), 10, text("fees"), day);
    assert_eq!(on_time, Ok(()));
    assert_eq!(wallet.get_balance(child), Ok(90));
}

#[test]
fn age_gate_is_closed_before_birth() {
    let (mut wallet, guardians, child) = one_child(5_000);
    approve(&mut wallet, &guardians, child, "school", "School");
    wallet.invest(addr("owner"), child, 100, 10).unwrap();
    assert_eq!(wallet.is_old_enough_to_spend(child, 10), Ok(false));
    let r = wallet.pay_to_institution(addr("owner"), child, addr("school"), 10, text("x"), 10);
    assert_eq!(r, Err(WalletError::BelowTargetAge));
}

#[test]
fn age_in_years_uses_365_day_years() {
    let (wallet, _g, child) = one_child(0);
    assert_eq!(wallet.is_old_enough_to_spend(child, 18 * 31_536_000), Ok(true));
    assert_eq!(wallet.is_old_enough_to_spend(child, 18 * 31_536_000 - 1), Ok(false));
    assert_eq!(wallet.is_old_enough_to_spend(child, u64::MAX), Ok(true));
    assert_eq!(wallet.is_old_enough_to_spend(3, 0), Err(WalletError::ProfileNotFound));
    let profile = wallet.get_child_profile(child).unwrap();
    assert!(profile.is_old_enough(567_648_000));
    assert!(!profile.is_old_enough(567_647_999));
}

#[test]
fn pay_checks_in_order() {
    let t0: u64 = 0;
    let (mut wallet, guardians, child) = one_child(t0);
    approve(&mut wallet, &guardians, child, "school", "School");
    wallet.invest(addr("owner"), child, 100, 1).unwrap();
    let grown = 18 * YEAR;

    // amount first
    let r = wallet.pay_to_institution(addr("o"), child, addr("nobody"), 0, text("x"), 1);
    assert_eq!(r, Err(WalletError::InvalidAmount));
    let r = wallet.pay_to_institution(addr("o"), child, addr("nobody"), -3, text("x"), grown);
    assert_eq!(r, Err(WalletError::InvalidAmount));
    // then the age
    let r = wallet.pay_to_institution(addr("o"), child, addr("nobody"), 1000, text("x"), 1);
    assert_eq!(r, Err(WalletError::BelowTargetAge));
    // then the balance
    let r = wallet.pay_to_institution(addr("o"), child, addr("nobody"), 101, text("x"), grown);
    assert_eq!(r, Err(WalletError::InsufficientBalance));
    assert_eq!(r.unwrap_err().kind(), ErrorKind::InsufficientFunds);
    // then the institution
    let r = wallet.pay_to_institution(addr("o"), child, addr("nobody"), 100, text("x"), grown);
    assert_eq!(r, Err(WalletError::InstitutionNotApproved));
    assert_eq!(r.unwrap_err().kind(), ErrorKind::NotFound);
    // an unknown child before all
    let r = wallet.pay_to_institution(addr("o"), 4, addr("school"), 0, text("x"), 1);
    assert_eq!(r, Err(WalletError::ProfileNotFound));

    assert_eq!(wallet.get_balance(child), Ok(100));
    assert!(wallet.get_institution_payments(child).unwrap().is_empty());
}

#[test]
fn pay_to_inactive_institution_is_refused() {
    let (mut wallet, guardians, child) = one_child(0);
    approve(&mut wallet, &guardians, child, "school", "School");
    wallet.invest(addr("owner"), child, 100, 1).unwrap();
    wallet.deactivate_institution(&guardians, &addr("owner"), child, &addr("school")).unwrap();
    let r = wallet.pay_to_institution(addr("o"), child, addr("school"), 10, text("x"), 18 * YEAR);
    assert_eq!(r, Err(WalletError::InstitutionNotApproved));
    assert_eq!(wallet.get_balance(child), Ok(100));
}

#[test]
fn pay_records_the_payment_under_the_listed_name() {
    let (mut wallet, guardians, child) = one_child(0);
    approve(&mut wallet, &guardians, child, "clinic", "Clinic");
    approve(&mut wallet, &guardians, child, "school", "School");
    wallet.invest(addr("owner"), child, 100, 1).unwrap();
    let now = 20 * YEAR;
    wallet.pay_to_institution(addr("payer"), child, addr("school"), 30, text("term fees"), now).unwrap();
    let payments = wallet.get_institution_payments(child).unwrap();
    assert_eq!(payments.len(), 1);
    assert_eq!(payments[0].amount, 30);
    assert_eq!(payments[0].institution, addr("school"));
    assert_eq!(payments[0].institution_name, text("School"));
    assert_eq!(payments[0].payment_purpose, text("term fees"));
    assert_eq!(payments[0].timestamp, now);
    assert_eq!(payments[0].paid_by, addr("payer"));
    assert_eq!(wallet.get_balance(child), Ok(70));
}

#[test]
fn balance_is_investments_less_payments() {
    let (mut wallet, guardians, child) = one_child(0);
    approve(&mut wallet, &guardians, child, "school", "School");
    let now = 18 * YEAR;
    let steps: [(bool, i128); 8] =
        [(true, 50), (false, 20), (true, 5), (false, 35), (false, 1), (true, 1000), (false, 999), (false, 1)];
    for (i, (is_investment, amount)) in steps.iter().enumerate() {
        let r = if *is_investment {
            wallet.invest(addr("owner"), child, *amount, now + i as u64)
        } else {
            wallet.pay_to_institution(addr("owner"), child, addr("school"), *amount, text("p"), now + i as u64)
        };
        let invested: i128 = wallet.get_investment_history(child).unwrap().iter().map(|x| x.amount).sum();
        let paid: i128 = wallet.get_institution_payments(child).unwrap().iter().map(|x| x.amount).sum();
        let balance = wallet.get_balance(child).unwrap();
        assert_eq!(balance, invested - paid);
        assert!(balance >= 0);
        if i == 4 {
            assert_eq!(r, Err(WalletError::InsufficientBalance));
        } else {
            assert_eq!(r, Ok(()));
        }
    }
    assert_eq!(wallet.get_balance(child), Ok(0));
    assert_eq!(wallet.get_investment_history(child).unwrap().len(), 3);
    assert_eq!(wallet.get_institution_payments(child).unwrap().len(), 4);
}

#[test]
fn scenario_save_then_pay_at_eighteen() {
    let t0: u64 = 1_000_000_000;
    let mut wallet = BabyWallet::new();
    let mut guardians = GuardianContract::new();
    let child = wallet
        .create_child_profile(&mut guardians, addr("owner"), text("Child"), t0, 18, 100000, text("Owner"), t0)
        .unwrap();
    wallet.invest(addr("owner"), child, 1000, t0 + 1).unwrap();
    wallet.invest(addr("owner"), child, 500, t0 + 2).unwrap();
    assert_eq!(wallet.get_balance(child), Ok(1500));
    wallet
        .add_approved_institution(
            &guardians,
            &addr("owner"),
            child,
            addr("university"),
            text("University"),
            InstitutionType::Education,
            t0 + 3,
        )
        .unwrap();

    let early = wallet.pay_to_institution(
        addr("owner"),
        child,
        addr("university"),
        1500,
        text("tuition"),
        t0 + 17 * YEAR,
    );
    assert_eq!(early, Err(WalletError::BelowTargetAge));
    assert_eq!(early.unwrap_err().kind(), ErrorKind::PolicyViolation);
    assert_eq!(wallet.get_balance(child), Ok(1500));
    assert!(wallet.get_institution_payments(child).unwrap().is_empty());

    let paid = wallet.pay_to_institution(
        addr("owner"),
        child,
        addr("university"),
        1500,
        text("tuition"),
        t0 + 18 * YEAR,
    );
    assert_eq!(paid, Ok(()));
    assert_eq!(wallet.get_balance(child), Ok(0));
    let payments = wallet.get_institution_payments(child).unwrap();
    assert_eq!(payments.len(), 1);
    assert_eq!(payments[0].amount, 1500);
    assert_eq!(payments[0].institution_name, text("University"));
}

#[test]
fn emergency_pause_stops_every_change_to_the_account() {
    let (mut wallet, guardians, child) = one_child(0);
    approve(&mut wallet, &guardians, child, "school", "School");
    wallet.invest(addr("owner"), child, 100, 1).unwrap();
    wallet.emergency_pause(child).unwrap();

    let paused = Err(WalletError::EmergencyPaused);
    assert_eq!(wallet.invest(addr("owner"), child, 5, 2), paused);
    assert_eq!(wallet.invest(addr("owner"), child, 0, 2), paused);
    assert_eq!(
        wallet.pay_to_institution(addr("owner"), child, addr("school"), 5, text("x"), 18 * YEAR),
        paused
    );
    assert_eq!(
        wallet.add_approved_institution(
            &guardians,
            &addr("owner"),
            child,
            addr("clinic"),
            text("Clinic"),
            InstitutionType::Both,
            3
        ),
        paused
    );
    assert_eq!(
        wallet.deactivate_institution(&guardians, &addr("owner"), child, &addr("school")),
        paused
    );
    assert_eq!(WalletError::EmergencyPaused.kind(), ErrorKind::PolicyViolation);

    assert_eq!(wallet.get_balance(child), Ok(100));
    assert_eq!(wallet.get_approved_institutions(child).unwrap().len(), 1);
    assert!(wallet.get_approved_institutions(child).unwrap()[0].is_active);
    // pausing again is fine, and reads go on
    assert_eq!(wallet.emergency_pause(child), Ok(()));
    assert!(wallet.is_emergency_paused(child));
}

#[test]
fn emergency_pause_is_per_child() {
    let mut wallet = BabyWallet::new();
    let mut guardians = GuardianContract::new();
    let a = wallet
        .create_child_profile(&mut guardians, addr("p"), text("a"), 0, 18, 5, text("P"), 0)
        .unwrap();
    let b = wallet
        .create_child_profile(&mut guardians, addr("p"), text("b"), 0, 18, 5, text("P"), 0)
        .unwrap();
    wallet.emergency_pause(a).unwrap();
    assert!(wallet.is_emergency_paused(a));
    assert!(!wallet.is_emergency_paused(b));
    assert!(!wallet.is_emergency_paused(17));
    assert_eq!(wallet.emergency_pause(17), Err(WalletError::ProfileNotFound));
    assert_eq!(wallet.invest(addr("p"), b, 3, 1), Ok(()));
}

#[test]
fn reads_on_unknown_child_are_not_found() {
    let wallet = BabyWallet::new();
    assert_eq!(wallet.get_balance(0), Err(WalletError::ProfileNotFound));
    assert_eq!(wallet.get_child_profile(0), Err(WalletError::ProfileNotFound));
    assert_eq!(wallet.get_investment_history(0), Err(WalletError::ProfileNotFound));
    assert_eq!(wallet.get_approved_institutions(0), Err(WalletError::ProfileNotFound));
    assert_eq!(wallet.get_institution_payments(0), Err(WalletError::ProfileNotFound));
}

#[test]
fn comprehensive_report_gathers_all_parts() {
    let (mut wallet, mut guardians, child) = one_child(0);
    let mut ledger = InvestmentManager::new();
    guardians
        .add_guardian(child, &addr("owner"), addr("aunt"), text("Aunt"), GuardianRole::Investor, 3)
        .unwrap();
    approve(&mut wallet, &guardians, child, "school", "School");
    wallet.invest(addr("aunt"), child, 300, 10).unwrap();
    wallet.pay_to_institution(addr("owner"), child, addr("school"), 120, text("books"), 18 * YEAR).unwrap();
    let weekly = ledger
        .create_investment_plan(&wallet, addr("aunt"), child, InvestmentType::Weekly, 10, 4, 100)
        .unwrap();
    let monthly = ledger
        .create_investment_plan(&wallet, addr("aunt"), child, InvestmentType::Monthly, 20, 2, 100)
        .unwrap();
    ledger.create_investment_plan(&wallet, addr("x"), 5, InvestmentType::Weekly, 1, 1, 100).unwrap();
    ledger.pause_investment_plan(&wallet, monthly).unwrap();
    ledger.record_yield(&wallet, child, 7, 250, text("pool"), 50).unwrap();
    ledger.record_yield(&wallet, 5, 1000, 250, text("pool"), 51).unwrap();
    ledger.record_yield(&wallet, child, 8, 250, text("pool"), 52).unwrap();

    let report = wallet.get_comprehensive_report(&guardians, &ledger, child).unwrap();
    assert_eq!(report.child_profile, wallet.get_child_profile(child).unwrap());
    assert_eq!(report.guardians, guardians.get_guardians(child).unwrap());
    assert_eq!(report.guardians.len(), 2);
    assert_eq!(report.total_balance, 180);
    assert_eq!(report.total_yield, 15);
    assert_eq!(report.active_investment_plans.len(), 1);
    assert_eq!(report.active_investment_plans[0].id, weekly);
    assert_eq!(report.investment_history, wallet.get_investment_history(child).unwrap());
    assert_eq!(report.institution_payments, wallet.get_institution_payments(child).unwrap());
    assert_eq!(report.institution_payments.len(), 1);
}

#[test]
fn comprehensive_report_failures() {
    let (wallet, _guardians, child) = one_child(0);
    let ledger = InvestmentManager::new();
    let empty = GuardianContract::new();
    assert_eq!(
        wallet.get_comprehensive_report(&empty, &ledger, child).unwrap_err(),
        WalletError::NotInitialized
    );
    assert_eq!(
        wallet.get_comprehensive_report(&empty, &ledger, 8).unwrap_err(),
        WalletError::ProfileNotFound
    );
}
