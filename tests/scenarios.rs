use lending_engine::account::AccountId;
use lending_engine::error::LendingError;
use lending_engine::service::LendingService;

const USERS: &[u64] = &[3, 4, 5, 6, 7, 8];
const VFT_ADDRESS: u64 = 2;
const NOW: u64 = 1_000;

fn id(n: u64) -> AccountId {
    AccountId::from_u64(n)
}

fn deployed() -> LendingService {
    LendingService::init(id(VFT_ADDRESS), id(USERS[0]), NOW)
}

#[test]
fn test_init() {
    let svc = deployed();
    assert_eq!(svc.get_admin(), id(USERS[0]));
    assert_eq!(svc.get().vft_address, id(VFT_ADDRESS));
    assert_eq!(svc.get_tvara_price(), 1_000_000_000_000_000_000);
    assert_eq!(svc.get_liquidity(), 0);
    assert!(!svc.is_paused());
}

#[test]
fn test_deposit_collateral() {
    let mut svc = deployed();
    let deposit_amount = 1_000_000_000_000;
    let event = svc.deposit_collateral(id(USERS[1]), deposit_amount, NOW).unwrap();
    assert_eq!(
        event.amount, deposit_amount,
        "User's balance should decrease by deposit amount"
    );
    assert_eq!(
        svc.get_collateral(id(USERS[0])),
        0,
        "Admin's balance should remain unchanged"
    );
    assert_eq!(
        svc.get_collateral(id(USERS[1])),
        deposit_amount,
        "Contract state should reflect deposited collateral"
    );
}

// Without any supplied liquidity the borrow is refused (nothing can be lent out).
#[test]
fn test_borrow() {
    let mut svc = deployed();
    let deposit_amount = 1_000_000_000_000;
    svc.deposit_collateral(id(USERS[1]), deposit_amount, NOW).unwrap();
    let r = svc.borrow(id(USERS[1]), NOW);
    assert_eq!(r, Err(LendingError::InsufficientLiquidity));
    assert_eq!(svc.get_debt(id(USERS[1])), 0, "User has no debt without liquidity");
}

// The borrow is refused for want of liquidity; repaying with no principal closes the
// position and names the whole collateral for return.
#[test]
fn test_repay() {
    let mut svc = deployed();
    let deposit_amount = 1_000_000_000_000;
    svc.deposit_collateral(id(USERS[1]), deposit_amount, NOW).unwrap();
    assert!(svc.borrow(id(USERS[1]), NOW).is_err());
    let repay_amount = 500_000_000_000;
    let repaid = svc.repay(id(USERS[1]), repay_amount, NOW).unwrap();
    assert!(repaid.debt_fully_paid);
    assert_eq!(repaid.collateral_to_return, deposit_amount);
    assert_eq!(svc.get_debt(id(USERS[1])), 0);
    assert!(!svc.get().collateral.contains(id(USERS[1])));
}

#[test]
fn test_lend() {
    let mut svc = deployed();
    let lend_amount = 1_000_000_000_000;
    svc.lend(id(USERS[2]), lend_amount, NOW).unwrap();
    assert_eq!(
        svc.get_lender_balance(id(USERS[2])),
        lend_amount,
        "Lender's balance should match amount lent"
    );
    assert_eq!(
        svc.get_liquidity(),
        lend_amount,
        "Total liquidity should match amount lent"
    );
}

#[test]
fn test_withdraw_liquidity() {
    let mut svc = deployed();
    let lend_amount = 1_000_000_000_000;
    svc.lend(id(USERS[2]), lend_amount, NOW).unwrap();
    let withdraw_amount = 500_000_000_000;
    svc.withdraw(id(USERS[2]), withdraw_amount, NOW).unwrap();
    assert_eq!(
        svc.get_lender_balance(id(USERS[2])),
        lend_amount - withdraw_amount,
        "Lender's balance should be reduced after withdrawal"
    );
    assert_eq!(
        svc.get_liquidity(),
        lend_amount - withdraw_amount,
        "Total liquidity should be reduced after withdrawal"
    );
}

// The borrow is refused for want of liquidity, so there is no debt and the position
// cannot be liquidated: it stays as deposited.
#[test]
fn test_liquidate() {
    let mut svc = deployed();
    let deposit_amount = 1_000_000_000_000;
    svc.deposit_collateral(id(USERS[1]), deposit_amount, NOW).unwrap();
    assert!(svc.borrow(id(USERS[1]), NOW).is_err());
    let r = svc.liquidate(id(USERS[1]), NOW);
    assert_eq!(r, Err(LendingError::NoDebt));
    assert_eq!(svc.get_collateral(id(USERS[1])), deposit_amount);
    assert!(!svc.get().debt.contains(id(USERS[1])));
}

// Without liquidity the borrow is refused and the health factor stays at its maximum.
#[test]
fn test_health_factor() {
    let mut svc = deployed();
    let deposit_amount = 1_000_000_000_000;
    svc.deposit_collateral(id(USERS[1]), deposit_amount, NOW).unwrap();
    assert!(svc.borrow(id(USERS[1]), NOW).is_err());
    assert_eq!(
        svc.get_collateral(id(USERS[1])),
        deposit_amount,
        "User's collateral should be correct"
    );
    assert_eq!(svc.get_debt(id(USERS[1])), 0);
    assert_eq!(svc.get_health_factor(id(USERS[1])), Some(u128::MAX));
}

#[test]
fn test_admin_functions() {
    let mut svc = deployed();
    svc.pause(id(USERS[0])).unwrap();
    assert!(svc.is_paused(), "Contract should be paused after pause action");
    svc.resume(id(USERS[0])).unwrap();
    assert!(
        !svc.is_paused(),
        "Contract should not be paused after resume action"
    );
}

#[test]
fn test_price_update() {
    let mut svc = deployed();
    let new_price = 1_100_000_000_000_000_000;
    svc.update_tvara_price(id(USERS[0]), new_price).unwrap();
    assert_eq!(svc.get_tvara_price(), new_price, "TVARA price should be updated");
}

#[test]
fn test_utilization_rate() {
    let mut svc = deployed();
    let lend_amount = 1_000_000_000_000;
    svc.lend(id(USERS[2]), lend_amount, NOW).unwrap();
    assert_eq!(
        svc.get_liquidity(),
        lend_amount,
        "Total liquidity should match amount lent"
    );
    assert_eq!(svc.get_utilization_rate(), Some(0));
}

#[test]
fn test_interest_accrual() {
    let mut svc = deployed();
    let lend_amount = 1_000_000_000_000;
    svc.lend(id(USERS[2]), lend_amount, NOW).unwrap();
    let deposit_amount = 1_000_000_000_000;
    svc.deposit_collateral(id(USERS[1]), deposit_amount, NOW).unwrap();
    svc.borrow(id(USERS[1]), NOW).unwrap();
    assert_eq!(
        svc.get_lender_balance(id(USERS[2])),
        lend_amount,
        "Lender's balance should match amount lent"
    );
    assert!(
        svc.get_debt(id(USERS[1])) > 0,
        "User should have debt after borrowing"
    );
}

#[test]
fn test_collateral_withdrawal() {
    let mut svc = deployed();
    let deposit_amount = 1_000_000_000_000;
    svc.deposit_collateral(id(USERS[1]), deposit_amount, NOW).unwrap();
    let withdraw_amount = 500_000_000_000;
    svc.withdraw_collateral(id(USERS[1]), withdraw_amount, NOW).unwrap();
    assert_eq!(
        svc.get_collateral(id(USERS[1])),
        deposit_amount - withdraw_amount,
        "User's collateral should be reduced after withdrawal"
    );
}

#[test]
fn test_reentrancy_protection() {
    let mut svc = deployed();
    let deposit_amount = 1_000_000_000_000;
    svc.deposit_collateral(id(USERS[1]), deposit_amount, NOW).unwrap();
    assert_eq!(
        svc.get_collateral(id(USERS[1])),
        deposit_amount,
        "User's collateral should be correct after deposit"
    );
    assert!(!svc.get().reentrancy);
}

#[test]
fn test_edge_cases() {
    let mut svc = deployed();
    assert_eq!(
        svc.deposit_collateral(id(USERS[1]), 0, NOW),
        Err(LendingError::ZeroAmount)
    );
    assert_eq!(svc.borrow(id(USERS[1]), NOW), Err(LendingError::NoCollateral));
    svc.repay(id(USERS[1]), 100_000_000_000, NOW).unwrap();
    assert!(!svc.get().collateral.contains(id(USERS[1])));
    assert!(!svc.get().debt.contains(id(USERS[1])));
}

#[test]
fn test_multiple_users() {
    let mut svc = deployed();
    for user in &USERS[1..] {
        let deposit_amount = 1_000_000_000_000;
        svc.deposit_collateral(id(*user), deposit_amount, NOW).unwrap();
    }
    for user in &USERS[1..] {
        let lend_amount = 500_000_000_000;
        svc.lend(id(*user), lend_amount, NOW).unwrap();
    }
    for user in &USERS[1..] {
        assert_eq!(svc.get_collateral(id(*user)), 1_000_000_000_000);
        assert_eq!(svc.get_lender_balance(id(*user)), 500_000_000_000);
    }
}

#[test]
fn test_insufficient_collateral_borrow() {
    let mut svc = deployed();
    assert_eq!(svc.borrow(id(USERS[1]), NOW), Err(LendingError::NoCollateral));
    assert!(!svc.get().debt.contains(id(USERS[1])));
}

#[test]
fn test_over_borrow_limit() {
    let mut svc = deployed();
    let lend_amount = 1_000_000_000_000;
    svc.lend(id(USERS[2]), lend_amount, NOW).unwrap();
    let deposit_amount = 1_000_000_000_000;
    svc.deposit_collateral(id(USERS[1]), deposit_amount, NOW).unwrap();
    svc.borrow(id(USERS[1]), NOW).unwrap();
    let debt = svc.get_debt(id(USERS[1]));
    assert!(
        debt <= 1_000_000_000_000,
        "Debt should not exceed available liquidity"
    );
}

#[test]
fn test_repay_more_than_debt() {
    let mut svc = deployed();
    let lend_amount = 1_000_000_000_000;
    svc.lend(id(USERS[2]), lend_amount, NOW).unwrap();
    let deposit_amount = 1_000_000_000_000;
    svc.deposit_collateral(id(USERS[1]), deposit_amount, NOW).unwrap();
    svc.borrow(id(USERS[1]), NOW).unwrap();
    let excessive_repay = 10_000_000_000_000;
    svc.repay(id(USERS[1]), excessive_repay, NOW).unwrap();
    assert!(!svc.get().debt.contains(id(USERS[1])));
}

#[test]
fn test_withdraw_more_than_liquidity() {
    let mut svc = deployed();
    let lend_amount = 1_000_000_000_000;
    svc.lend(id(USERS[2]), lend_amount, NOW).unwrap();
    let excessive_withdraw = 10_000_000_000_000;
    assert_eq!(
        svc.withdraw(id(USERS[2]), excessive_withdraw, NOW),
        Err(LendingError::InsufficientBalance)
    );
    let bal = svc.get_lender_balance(id(USERS[2]));
    assert!(bal <= 1_000_000_000_000, "Lender balance should not be negative");
}

#[test]
fn test_withdraw_collateral_with_debt() {
    let mut svc = deployed();
    let lend_amount = 1_000_000_000_000;
    svc.lend(id(USERS[2]), lend_amount, NOW).unwrap();
    let deposit_amount = 1_000_000_000_000;
    svc.deposit_collateral(id(USERS[1]), deposit_amount, NOW).unwrap();
    svc.borrow(id(USERS[1]), NOW).unwrap();
    let withdraw_amount = 500_000_000_000;
    assert_eq!(
        svc.withdraw_collateral(id(USERS[1]), withdraw_amount, NOW),
        Err(LendingError::ExceedsLtv)
    );
    let collateral = svc.get_collateral(id(USERS[1]));
    assert!(
        collateral <= 1_000_000_000_000,
        "Collateral should not exceed original"
    );
}

#[test]
fn test_liquidate_healthy_position() {
    let mut svc = deployed();
    let deposit_amount = 1_000_000_000_000;
    svc.deposit_collateral(id(USERS[1]), deposit_amount, NOW).unwrap();
    assert!(svc.liquidate(id(USERS[1]), NOW).is_err());
    assert_eq!(svc.get_collateral(id(USERS[1])), 1_000_000_000_000);
}

#[test]
fn test_price_manipulation() {
    let mut svc = deployed();
    let lend_amount = 1_000_000_000_000;
    svc.lend(id(USERS[2]), lend_amount, NOW).unwrap();
    let deposit_amount = 1_000_000_000_000;
    svc.deposit_collateral(id(USERS[1]), deposit_amount, NOW).unwrap();
    svc.borrow(id(USERS[1]), NOW).unwrap();
    let high_price = 10_000_000_000_000_000_000;
    svc.update_tvara_price(id(USERS[0]), high_price).unwrap();
    let _user_info = svc.get_user_info(id(USERS[1]));
    assert_eq!(svc.get_tvara_price(), 10_000_000_000_000_000_000);
}

#[test]
fn test_zero_price_update() {
    let mut svc = deployed();
    assert_eq!(
        svc.update_tvara_price(id(USERS[0]), 0),
        Err(LendingError::InvalidPrice)
    );
    assert!(svc.get_tvara_price() > 0, "Price should not be zero");
}

#[test]
fn test_non_admin_price_update() {
    let mut svc = deployed();
    let new_price = 1_100_000_000_000_000_000;
    assert_eq!(
        svc.update_tvara_price(id(USERS[1]), new_price),
        Err(LendingError::NotAdmin)
    );
    assert_eq!(svc.get_tvara_price(), 1_000_000_000_000_000_000);
}

#[test]
fn test_pause_and_resume_operations() {
    let mut svc = deployed();
    svc.pause(id(USERS[0])).unwrap();
    let deposit_amount = 1_000_000_000_000;
    assert_eq!(
        svc.deposit_collateral(id(USERS[1]), deposit_amount, NOW),
        Err(LendingError::Paused)
    );
    let lend_amount = 1_000_000_000_000;
    assert_eq!(svc.lend(id(USERS[2]), lend_amount, NOW), Err(LendingError::Paused));
    svc.resume(id(USERS[0])).unwrap();
    svc.deposit_collateral(id(USERS[1]), deposit_amount, NOW).unwrap();
    svc.lend(id(USERS[2]), lend_amount, NOW).unwrap();
    assert!(!svc.is_paused(), "Protocol should not be paused after resume");
}

#[test]
fn test_multiple_borrows_and_repays() {
    let mut svc = deployed();
    let lend_amount = 5_000_000_000_000;
    svc.lend(id(USERS[2]), lend_amount, NOW).unwrap();
    let deposit_amount = 2_000_000_000_000;
    svc.deposit_collateral(id(USERS[1]), deposit_amount, NOW).unwrap();
    svc.borrow(id(USERS[1]), NOW).unwrap();
    assert_eq!(svc.borrow(id(USERS[1]), NOW), Err(LendingError::ExceedsLtv));
    assert_eq!(svc.borrow(id(USERS[1]), NOW), Err(LendingError::ExceedsLtv));
    let repay_amount = 500_000_000_000;
    svc.repay(id(USERS[1]), repay_amount, NOW).unwrap();
    svc.repay(id(USERS[1]), repay_amount, NOW).unwrap();
    let _user_info = svc.get_user_info(id(USERS[1]));
    let debt = svc.get_debt(id(USERS[1]));
    assert!(debt < 2_000_000_000_000, "Debt should be reduced after repays");
}

#[test]
fn test_high_utilization_scenario() {
    let mut svc = deployed();
    let lend_amount = 1_000_000_000_000;
    svc.lend(id(USERS[2]), lend_amount, NOW).unwrap();
    for user in &USERS[1..] {
        let deposit_amount = 500_000_000_000;
        svc.deposit_collateral(id(*user), deposit_amount, NOW).unwrap();
        let _ = svc.borrow(id(*user), NOW);
    }
    let _utilization = svc.get_utilization_rate();
    let liquidity = svc.get_liquidity();
    let borrowed = svc.get_total_principal_borrowed();
    let util = if liquidity + borrowed > 0 {
        (borrowed * 1_000_000_000_000_000_000) / (liquidity + borrowed)
    } else {
        0
    };
    assert!(util > 500_000_000_000_000_000, "Utilization should be high");
}

#[test]
fn test_collateral_ratio_scenarios() {
    let mut svc = deployed();
    let lend_amount = 1_000_000_000_000;
    svc.lend(id(USERS[2]), lend_amount, NOW).unwrap();
    let scenarios = [
        (1_000_000_000_000, "1:1 ratio"),
        (2_000_000_000_000, "2:1 ratio"),
        (500_000_000_000, "0.5:1 ratio"),
    ];
    for (deposit_amount, _description) in scenarios.iter() {
        svc.deposit_collateral(id(USERS[1]), *deposit_amount, NOW).unwrap();
        let _ = svc.borrow(id(USERS[1]), NOW);
        let _user_info = svc.get_user_info(id(USERS[1]));
        svc.repay(id(USERS[1]), 1_000_000_000_000, NOW).unwrap();
        let _ = svc.withdraw_collateral(id(USERS[1]), *deposit_amount, NOW);
        assert!(!svc.get().collateral.contains(id(USERS[1])));
        assert!(!svc.get().debt.contains(id(USERS[1])));
    }
}

#[test]
fn test_protocol_pause_during_active_positions() {
    let mut svc = deployed();
    let lend_amount = 1_000_000_000_000;
    svc.lend(id(USERS[2]), lend_amount, NOW).unwrap();
    let deposit_amount = 1_000_000_000_000;
    svc.deposit_collateral(id(USERS[1]), deposit_amount, NOW).unwrap();
    svc.borrow(id(USERS[1]), NOW).unwrap();
    svc.pause(id(USERS[0])).unwrap();
    assert_eq!(
        svc.repay(id(USERS[1]), 100_000_000_000, NOW),
        Err(LendingError::Paused)
    );
    assert_eq!(
        svc.withdraw(id(USERS[2]), 100_000_000_000, NOW),
        Err(LendingError::Paused)
    );
    svc.resume(id(USERS[0])).unwrap();
    svc.repay(id(USERS[1]), 100_000_000_000, NOW).unwrap();
    svc.withdraw(id(USERS[2]), 100_000_000_000, NOW).unwrap();
    assert!(!svc.is_paused(), "Protocol should not be paused after resume");
}

#[test]
fn test_concurrent_user_operations() {
    let mut svc = deployed();
    svc.deposit_collateral(id(USERS[1]), 1_000_000_000_000, NOW).unwrap();
    svc.lend(id(USERS[2]), 1_000_000_000_000, NOW).unwrap();
    svc.deposit_collateral(id(USERS[3]), 500_000_000_000, NOW).unwrap();
    svc.lend(id(USERS[4]), 500_000_000_000, NOW).unwrap();
    svc.deposit_collateral(id(USERS[5]), 750_000_000_000, NOW).unwrap();
    svc.borrow(id(USERS[1]), NOW).unwrap();
    svc.borrow(id(USERS[3]), NOW).unwrap();
    svc.borrow(id(USERS[5]), NOW).unwrap();
    for user in &USERS[1..] {
        let _user_info = svc.get_user_info(id(*user));
    }
    for user in &USERS[1..] {
        let has_collateral = svc.get_collateral(id(*user)) > 0;
        let has_lender_balance = svc.get_lender_balance(id(*user)) > 0;
        assert!(
            has_collateral || has_lender_balance,
            "User should have collateral or lender balance"
        );
    }
}
