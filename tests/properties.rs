use lending_engine::account::AccountId;
use lending_engine::error::LendingError;
use lending_engine::rates::{asset_value, borrow_rate, health_factor, interest_for, utilization};
use lending_engine::service::LendingService;
use lending_engine::vft::{Transfer, VftEvent, VftService};

const ADMIN: u64 = 3;
const BORROWER: u64 = 4;
const LENDER: u64 = 5;
const OTHER: u64 = 6;
const UNIT: u128 = 1_000_000_000_000;
const WAD: u128 = 1_000_000_000_000_000_000;
const YEAR: u64 = 31_536_000;

fn id(n: u64) -> AccountId {
    AccountId::from_u64(n)
}

/// A pool with one lender of one unit and one borrower who took 0.66 unit against one
/// unit of collateral, all at time 0.
fn pool_with_loan() -> LendingService {
    let mut svc = LendingService::init(id(2), id(ADMIN), 0);
    svc.lend(id(LENDER), UNIT, 0).unwrap();
    svc.deposit_collateral(id(BORROWER), UNIT, 0).unwrap();
    svc.borrow(id(BORROWER), 0).unwrap();
    svc
}

#[test]
fn borrow_takes_sixty_six_percent_and_refuses_a_second_loan() {
    let mut svc = pool_with_loan();
    let debt = svc.get_debt(id(BORROWER));
    assert_eq!(debt, 660_000_000_000);
    assert!(debt > 0 && debt <= UNIT * 66 / 100);
    assert_eq!(svc.borrow(id(BORROWER), 0), Err(LendingError::ExceedsLtv));
    assert_eq!(svc.get_debt(id(BORROWER)), 660_000_000_000);
    assert_eq!(svc.get_liquidity(), 340_000_000_000);
    assert_eq!(svc.get_total_principal_borrowed(), 660_000_000_000);
}

#[test]
fn borrow_is_refused_beyond_liquidity() {
    let mut svc = LendingService::init(id(2), id(ADMIN), 0);
    svc.lend(id(LENDER), UNIT / 2, 0).unwrap();
    svc.deposit_collateral(id(BORROWER), UNIT, 0).unwrap();
    assert_eq!(svc.borrow(id(BORROWER), 0), Err(LendingError::InsufficientLiquidity));
    assert_eq!(svc.get_liquidity(), UNIT / 2);
}

#[test]
fn borrow_of_nothing_is_refused() {
    let mut svc = LendingService::init(id(2), id(ADMIN), 0);
    svc.lend(id(LENDER), UNIT, 0).unwrap();
    svc.deposit_collateral(id(BORROWER), 1, 0).unwrap();
    assert_eq!(svc.borrow(id(BORROWER), 0), Err(LendingError::ZeroAmount));
    assert!(!svc.get().debt.contains(id(BORROWER)));
}

#[test]
fn lend_and_withdraw_half() {
    let mut svc = LendingService::init(id(2), id(ADMIN), 0);
    svc.lend(id(LENDER), 1_000_000, 0).unwrap();
    assert_eq!(svc.get_liquidity(), 1_000_000);
    assert_eq!(svc.get_lender_balance(id(LENDER)), 1_000_000);
    let (principal, interest) = svc.withdraw(id(LENDER), 500_000, 0).unwrap();
    assert_eq!(principal.amount, 500_000);
    assert_eq!(interest.amount, 0);
    assert_eq!(svc.get_lender_balance(id(LENDER)), 500_000);
    assert_eq!(svc.get_liquidity(), 500_000);
}

#[test]
fn price_zero_or_from_non_admin_is_refused() {
    let mut svc = LendingService::init(id(2), id(ADMIN), 0);
    assert_eq!(svc.update_tvara_price(id(ADMIN), 0), Err(LendingError::InvalidPrice));
    assert_eq!(svc.get_tvara_price(), WAD);
    assert_eq!(
        svc.update_tvara_price(id(OTHER), 2 * WAD),
        Err(LendingError::NotAdmin)
    );
    assert_eq!(svc.get_tvara_price(), WAD);
}

#[test]
fn pause_blocks_every_operation_and_resume_restores() {
    let mut svc = pool_with_loan();
    let before = svc.get_user_info(id(BORROWER));
    assert_eq!(svc.pause(id(OTHER)), Err(LendingError::NotAdmin));
    svc.pause(id(ADMIN)).unwrap();
    assert_eq!(svc.deposit_collateral(id(BORROWER), 1, 10), Err(LendingError::Paused));
    assert_eq!(svc.borrow(id(BORROWER), 10), Err(LendingError::Paused));
    assert_eq!(svc.repay(id(BORROWER), 1, 10), Err(LendingError::Paused));
    assert_eq!(svc.withdraw_collateral(id(BORROWER), 1, 10), Err(LendingError::Paused));
    assert_eq!(svc.lend(id(LENDER), 1, 10), Err(LendingError::Paused));
    assert_eq!(svc.withdraw(id(LENDER), 1, 10), Err(LendingError::Paused));
    assert_eq!(svc.claim_interest(id(LENDER), 10), Err(LendingError::Paused));
    assert_eq!(svc.liquidate(id(BORROWER), 10), Err(LendingError::Paused));
    assert_eq!(svc.update_tvara_price(id(ADMIN), WAD), Err(LendingError::Paused));
    assert_eq!(svc.admin_withdraw_funds(id(ADMIN), 1, 10), Err(LendingError::Paused));
    assert_eq!(svc.admin_withdraw_treasury(id(ADMIN), 1, 10), Err(LendingError::Paused));
    assert_eq!(svc.get_last_accrual_ts(), 0);
    svc.resume(id(ADMIN)).unwrap();
    assert_eq!(svc.get_user_info(id(BORROWER)), before);
    assert_eq!(svc.get_liquidity(), 340_000_000_000);
    svc.lend(id(LENDER), 1, 0).unwrap();
    assert_eq!(svc.get_liquidity(), 340_000_000_001);
}

#[test]
fn one_year_of_interest_is_split_exactly() {
    let mut svc = pool_with_loan();
    // utilization 0.66, rate 6% + 0.66 * 4% / 0.8 = 9.3%
    assert_eq!(svc.get_utilization_rate(), Some(660_000_000_000_000_000));
    assert_eq!(svc.get_borrow_rate_per_year(), Some(93_000_000_000_000_000));
    let claimed = svc.claim_interest(id(LENDER), YEAR).unwrap();
    // 660e9 * 9.3% = 61.38e9 generated; 4% of it spread over 340e9 of liquidity
    assert_eq!(claimed.amount, 7_221_176_470);
    assert_eq!(svc.get_user_accrued_interest(id(BORROWER)), 61_380_000_000);
    assert_eq!(svc.get_treasury_balance(), 1_227_600_000);
    assert_eq!(svc.get().total_interest_earned, 61_380_000_000);
    assert_eq!(svc.get_last_accrual_ts(), YEAR);
    assert_eq!(svc.get_lender_earned_interest(id(LENDER)), 0);
    assert_eq!(svc.get_lender_interest_earned(id(LENDER)), 0);
    assert_eq!(
        svc.get_total_outstanding_debt(id(BORROWER)),
        Some(660_000_000_000 + 61_380_000_000)
    );
    assert_eq!(svc.claim_interest(id(LENDER), YEAR), Err(LendingError::NothingToClaim));
}

#[test]
fn zero_interval_accrues_nothing() {
    let mut svc = pool_with_loan();
    svc.claim_interest(id(LENDER), YEAR).unwrap();
    let accrued = svc.get_user_accrued_interest(id(BORROWER));
    let treasury = svc.get_treasury_balance();
    assert_eq!(svc.claim_interest(id(LENDER), YEAR), Err(LendingError::NothingToClaim));
    svc.deposit_collateral(id(OTHER), 1, YEAR).unwrap();
    svc.deposit_collateral(id(OTHER), 1, YEAR).unwrap();
    assert_eq!(svc.get_user_accrued_interest(id(BORROWER)), accrued);
    assert_eq!(svc.get_treasury_balance(), treasury);
}

#[test]
fn repay_more_than_principal_settles_interest_from_collateral() {
    let mut svc = pool_with_loan();
    svc.deposit_collateral(id(OTHER), 1, YEAR).unwrap();
    let interest = svc.get_user_accrued_interest(id(BORROWER));
    assert_eq!(interest, 61_380_000_000);
    let repaid = svc.repay(id(BORROWER), 10 * UNIT, YEAR).unwrap();
    assert!(repaid.debt_fully_paid);
    assert_eq!(repaid.amount, 10 * UNIT);
    assert_eq!(repaid.interest_deducted, interest);
    assert_eq!(repaid.collateral_to_return, UNIT - interest);
    assert_eq!(svc.get_total_principal_borrowed(), 0);
    assert_eq!(svc.get_liquidity(), UNIT);
    assert!(!svc.get().collateral.contains(id(BORROWER)));
    assert!(!svc.get().debt.contains(id(BORROWER)));
    assert!(!svc.get().user_accrued_interest.contains(id(BORROWER)));
}

#[test]
fn partial_repay_keeps_position_open() {
    let mut svc = pool_with_loan();
    let repaid = svc.repay(id(BORROWER), 160_000_000_000, 0).unwrap();
    assert!(!repaid.debt_fully_paid);
    assert_eq!(repaid.collateral_to_return, 0);
    assert_eq!(svc.get_debt(id(BORROWER)), 500_000_000_000);
    assert_eq!(svc.get_total_principal_borrowed(), 500_000_000_000);
    assert_eq!(svc.get_liquidity(), 500_000_000_000);
    assert_eq!(svc.get_collateral(id(BORROWER)), UNIT);
}

#[test]
fn liquidation_below_threshold_only() {
    let mut svc = pool_with_loan();
    // 100 * 1e18 / 6.6e17
    assert_eq!(svc.get_health_factor(id(BORROWER)), Some(151));
    assert_eq!(svc.liquidate(id(BORROWER), 0), Err(LendingError::Healthy));
    svc.update_tvara_price(id(ADMIN), 700_000_000_000_000_000).unwrap();
    assert_eq!(svc.get_health_factor(id(BORROWER)), Some(106));
    let event = svc.liquidate(id(OTHER), 0);
    assert_eq!(event, Err(LendingError::NoCollateral));
    let event = svc.liquidate(id(BORROWER), 0).unwrap();
    assert_eq!(event.collateral_sold, UNIT);
    assert_eq!(event.debt_cleared, 660_000_000_000);
    assert_eq!(svc.get_liquidity(), 340_000_000_000 + UNIT);
    assert_eq!(svc.get_total_principal_borrowed(), 0);
    assert_eq!(svc.get_health_factor(id(BORROWER)), Some(u128::MAX));
}

#[test]
fn withdraw_collateral_respects_cap() {
    let mut svc = pool_with_loan();
    assert_eq!(
        svc.withdraw_collateral(id(BORROWER), 2 * UNIT, 0),
        Err(LendingError::InsufficientCollateral)
    );
    // 0.66 owed needs 0.99 of collateral under the 150% cap
    assert_eq!(
        svc.withdraw_collateral(id(BORROWER), 20_000_000_000, 0),
        Err(LendingError::ExceedsLtv)
    );
    assert_eq!(svc.withdraw_collateral(id(BORROWER), 10_000_000_000, 0), Ok(10_000_000_000));
    assert_eq!(svc.get_collateral(id(BORROWER)), 990_000_000_000);
    svc.deposit_collateral(id(OTHER), 5, 0).unwrap();
    assert_eq!(svc.withdraw_collateral(id(OTHER), 5, 0), Ok(5));
    assert!(!svc.get().collateral.contains(id(OTHER)));
}

#[test]
fn admin_withdrawals() {
    let mut svc = pool_with_loan();
    assert_eq!(
        svc.admin_withdraw_funds(id(OTHER), 1, 0),
        Err(LendingError::NotAdmin)
    );
    assert_eq!(svc.admin_withdraw_funds(id(ADMIN), 0, 0), Err(LendingError::ZeroAmount));
    assert_eq!(
        svc.admin_withdraw_funds(id(ADMIN), UNIT, 0),
        Err(LendingError::InsufficientLiquidity)
    );
    svc.update_tvara_price(id(ADMIN), 2 * WAD).unwrap();
    assert_eq!(svc.admin_withdraw_funds(id(ADMIN), 40_000_000_000, 0), Ok(80_000_000_000));
    assert_eq!(svc.get_liquidity(), 300_000_000_000);
    assert_eq!(
        svc.admin_withdraw_treasury(id(ADMIN), 1, 0),
        Err(LendingError::InsufficientLiquidity)
    );
    svc.deposit_collateral(id(OTHER), 1, YEAR).unwrap();
    // utilization 660 / 960 gives a rate of 9.4375%: 62.2875e9 generated, 2% of it kept
    assert_eq!(svc.get_treasury_balance(), 1_245_750_000);
    assert_eq!(svc.admin_withdraw_treasury(id(ADMIN), 245_750_000, YEAR), Ok(491_500_000));
    assert_eq!(svc.get_treasury_balance(), 1_000_000_000);
}

#[test]
fn overflow_is_refused_without_change() {
    let mut svc = LendingService::init(id(2), id(ADMIN), 0);
    svc.deposit_collateral(id(BORROWER), u128::MAX, 0).unwrap();
    assert_eq!(
        svc.deposit_collateral(id(BORROWER), 1, 0),
        Err(LendingError::Overflow)
    );
    assert_eq!(svc.get_collateral(id(BORROWER)), u128::MAX);
    assert_eq!(svc.borrow(id(BORROWER), 0), Err(LendingError::Overflow));
    assert_eq!(svc.get_user_position(id(BORROWER)), None);
}

#[test]
fn queries_report_positions() {
    let svc = pool_with_loan();
    let info = svc.get_user_info(id(BORROWER)).unwrap();
    assert_eq!(info.collateral, UNIT);
    assert_eq!(info.debt, 660_000_000_000);
    assert_eq!(info.tvara_price, WAD);
    assert_eq!(info.health_factor, 151);
    let lender = svc.get_user_info(id(LENDER)).unwrap();
    assert_eq!(lender.lender_balance, UNIT);
    assert_eq!(lender.health_factor, u128::MAX);
    assert_eq!(
        svc.get_user_position(id(BORROWER)),
        Some((UNIT, 660_000_000_000, WAD, WAD))
    );
    let all = svc.get_all_borrowers_info().unwrap();
    assert_eq!(all.len(), 1);
    assert_eq!(all[0].0, id(BORROWER));
    assert_eq!(all[0].1, info);
    assert!(svc.get().reentrancy == false);
}

#[test]
fn rate_curve_points() {
    assert_eq!(borrow_rate(0), 60_000_000_000_000_000);
    assert_eq!(borrow_rate(400_000_000_000_000_000), 80_000_000_000_000_000);
    assert_eq!(borrow_rate(800_000_000_000_000_000), 100_000_000_000_000_000);
    assert_eq!(borrow_rate(900_000_000_000_000_000), 120_000_000_000_000_000);
    assert_eq!(borrow_rate(WAD), 140_000_000_000_000_000);
}

#[test]
fn formula_values() {
    assert_eq!(utilization(0, 0), Some(0));
    assert_eq!(utilization(1, 3), Some(250_000_000_000_000_000));
    assert_eq!(utilization(u128::MAX, 1), None);
    assert_eq!(interest_for(0, WAD, 1), Some(0));
    assert_eq!(
        interest_for(1_000_000_000_000, 100_000_000_000_000_000, 31_536_000),
        Some(100_000_000_000)
    );
    assert_eq!(interest_for(u128::MAX, 2, 1), None);
    assert_eq!(asset_value(UNIT, WAD), Some(WAD));
    assert_eq!(asset_value(u128::MAX, 2), None);
    assert_eq!(health_factor(UNIT, 0, WAD), Some(u128::MAX));
    assert_eq!(health_factor(UNIT, UNIT, WAD), Some(100));
    assert_eq!(health_factor(3 * UNIT, 2 * UNIT, WAD), Some(150));
}

#[test]
fn token_ledger_mint_burn_transfer() {
    let mut vft = VftService::new();
    assert_eq!(vft.mint(id(1), 0), Err(LendingError::ZeroAmount));
    assert_eq!(vft.mint(id(1), 100), Ok(VftEvent::Minted(id(1), 100)));
    assert_eq!(vft.burn(id(1), 101), Err(LendingError::InsufficientBalance));
    assert_eq!(vft.burn(id(1), 40), Ok(VftEvent::Burned(id(1), 40)));
    assert_eq!(vft.balance_of(id(1)), 60);
    assert_eq!(
        vft.transfer(id(1), id(2), 25),
        Ok(VftEvent::Transferred(Transfer { from: id(1), to: id(2), amount: 25 }))
    );
    assert_eq!(vft.balance_of(id(1)), 35);
    assert_eq!(vft.balance_of(id(2)), 25);
    assert_eq!(vft.transfer(id(2), id(2), 25).is_ok(), true);
    assert_eq!(vft.balance_of(id(2)), 25);
    assert_eq!(vft.transfer(id(2), id(1), 26), Err(LendingError::InsufficientBalance));
    assert_eq!(vft.mint(id(3), u128::MAX), Ok(VftEvent::Minted(id(3), u128::MAX)));
    assert_eq!(vft.transfer(id(1), id(3), 1), Err(LendingError::Overflow));
    assert_eq!(vft.balance_of(id(1)), 35);
}
