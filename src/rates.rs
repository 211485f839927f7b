use vstd::prelude::*;

verus! {

/// Fixed-point scale of prices and rates: eighteen fractional digits.
pub const WAD: u128 = 1_000_000_000_000_000_000;

/// One whole unit of the native asset: twelve fractional digits.
pub const TVARA_UNIT: u128 = 1_000_000_000_000;

/// Price that a fresh engine starts with (1.0 in WAD terms).
pub const DEFAULT_TVARA_PRICE: u128 = 1_000_000_000_000_000_000;

/// `WAD / TVARA_UNIT`: scales an asset amount to a WAD value at a 1:1 price.
pub const UNIT_TO_WAD: u128 = 1_000_000;

/// Percent of newly generated interest credited to lenders.
pub const LENDER_INTEREST_SHARE: u128 = 4;

/// Percent of newly generated interest credited to the treasury.
pub const TREASURY_INTEREST_SHARE: u128 = 2;

pub const SECONDS_PER_YEAR: u128 = 31_536_000;

/// Yearly rate at zero utilization (6%).
pub const BASE_RATE: u128 = 60_000_000_000_000_000;

/// Yearly rate at full utilization (10%).
pub const MAX_RATE: u128 = 100_000_000_000_000_000;

/// Utilization at the kink of the rate curve (80%).
pub const OPTIMAL_UTILIZATION: u128 = 800_000_000_000_000_000;

/// A position whose health factor is below this may be liquidated.
pub const LIQUIDATION_THRESHOLD: u128 = 120;

/// Health factor reported for a position without debt.
pub const MAX_HEALTH: u128 = 0xffff_ffff_ffff_ffff_ffff_ffff_ffff_ffff;

/// The value lies in the range of `u128`.
pub open spec fn fits(x: int) -> bool {
    0 <= x <= u128::MAX
}

/// Share of the pool that is lent out, in WAD; zero for an empty pool.
pub open spec fn utilization_spec(borrowed: int, liquidity: int) -> int {
    if liquidity + borrowed == 0 {
        0
    } else {
        borrowed * WAD / (liquidity + borrowed)
    }
}

/// The kinked yearly borrow rate at utilization `u`, in WAD.
pub open spec fn rate_spec(u: int) -> int {
    let r0 = BASE_RATE as int;
    let rmax = MAX_RATE as int;
    let u_opt = OPTIMAL_UTILIZATION as int;
    if u <= u_opt {
        r0 + u * (rmax - r0) / u_opt
    } else {
        r0 + u_opt * (rmax - r0) / u_opt + (u - u_opt) * (rmax - r0) / (WAD - u_opt)
    }
}

/// Interest on `principal` at yearly `rate` over `dt` seconds, rounded down.
pub open spec fn interest_spec(principal: int, rate: int, dt: int) -> int {
    principal * rate * dt / (SECONDS_PER_YEAR as int) / (WAD as int)
}

/// Value in reference units (WAD) of `units` of the asset at `price`.
pub open spec fn value_spec(units: int, price: int) -> int {
    units * price / (TVARA_UNIT as int)
}

/// `100 * collateral value / debt value`, with the debt valued 1:1.
pub open spec fn health_spec(collateral: int, debt: int, price: int) -> int {
    if debt == 0 {
        MAX_HEALTH as int
    } else {
        value_spec(collateral, price) * 100 / (debt * UNIT_TO_WAD)
    }
}

/// The health factor can be computed without leaving `u128`.
pub open spec fn health_fits(collateral: int, debt: int, price: int) -> bool {
    debt == 0 || (fits(collateral * price) && fits(value_spec(collateral, price) * 100) && fits(
        debt * UNIT_TO_WAD,
    ))
}

/// Utilization in WAD of a pool with `borrowed` lent out and `liquidity` available;
/// `None` where an intermediate value leaves `u128`.
pub fn utilization(borrowed: u128, liquidity: u128) -> (r: Option<u128>)
    ensures
        r == (if !fits(liquidity + borrowed) || (liquidity + borrowed != 0 && !fits(
            borrowed * WAD,
        )) {
            None
        } else {
            Some(utilization_spec(borrowed as int, liquidity as int) as u128)
        }),
        r matches Some(u) ==> u <= WAD && u == utilization_spec(borrowed as int, liquidity as int),
{
    let total = match liquidity.checked_add(borrowed) {
        Some(t) => t,
        None => return None,
    };
    if total == 0 {
        return Some(0);
    }
    let scaled = match borrowed.checked_mul(WAD) {
        Some(s) => s,
        None => return None,
    };
    proof {
        assert(borrowed * WAD <= total * WAD) by (nonlinear_arith)
            requires
                borrowed <= total,
        ;
        assert(scaled / total <= WAD) by (nonlinear_arith)
            requires
                scaled <= total * WAD,
                total > 0,
        ;
    }
    Some(scaled / total)
}

/// The yearly borrow rate at utilization `u`.
pub fn borrow_rate(u: u128) -> (r: u128)
    requires
        u <= WAD,
    ensures
        r == rate_spec(u as int),
        BASE_RATE <= r <= MAX_RATE + (MAX_RATE - BASE_RATE),
{
    let r0 = BASE_RATE;
    let rmax = MAX_RATE;
    let u_opt = OPTIMAL_UTILIZATION;
    if u <= u_opt {
        proof {
            assert(u * (rmax - r0) <= u_opt * (rmax - r0)) by (nonlinear_arith)
                requires
                    u <= u_opt,
                    rmax >= r0,
            ;
            let x: int = u * (rmax - r0);
            let d: int = u_opt as int;
            let c: int = rmax - r0;
            assert(x / d <= c) by (nonlinear_arith)
                requires
                    x <= d * c,
                    d > 0,
            ;
        }
        r0 + u * (rmax - r0) / u_opt
    } else {
        proof {
            assert((u - u_opt) * (rmax - r0) <= (WAD - u_opt) * (rmax - r0)) by (nonlinear_arith)
                requires
                    u <= WAD,
                    u > u_opt,
                    rmax >= r0,
            ;
            let x: int = (u - u_opt) * (rmax - r0);
            let d: int = WAD - u_opt;
            let c: int = rmax - r0;
            assert(x / d <= c) by (nonlinear_arith)
                requires
                    x <= d * c,
                    d > 0,
            ;
        }
        r0 + u_opt * (rmax - r0) / u_opt + (u - u_opt) * (rmax - r0) / (WAD - u_opt)
    }
}

/// Interest on `principal` at yearly `rate` over `dt` seconds; `None` where the product
/// leaves `u128`.
pub fn interest_for(principal: u128, rate: u128, dt: u128) -> (r: Option<u128>)
    ensures
        r == (if fits(principal * rate) && fits(principal * rate * dt) {
            Some(interest_spec(principal as int, rate as int, dt as int) as u128)
        } else {
            None
        }),
        r matches Some(v) ==> v == interest_spec(principal as int, rate as int, dt as int),
{
    let a = match principal.checked_mul(rate) {
        Some(a) => a,
        None => return None,
    };
    let b = match a.checked_mul(dt) {
        Some(b) => b,
        None => return None,
    };
    Some(b / SECONDS_PER_YEAR / WAD)
}

/// Value in reference units of `units` of the asset at `price`; `None` where the product
/// leaves `u128`.
pub fn asset_value(units: u128, price: u128) -> (r: Option<u128>)
    ensures
        r == (if fits(units * price) {
            Some(value_spec(units as int, price as int) as u128)
        } else {
            None
        }),
        r matches Some(v) ==> v == value_spec(units as int, price as int),
{
    match units.checked_mul(price) {
        Some(p) => Some(p / TVARA_UNIT),
        None => None,
    }
}

/// Health factor of a position with `collateral` units and `debt` units owed.
pub fn health_factor(collateral: u128, debt: u128, price: u128) -> (r: Option<u128>)
    ensures
        r == (if health_fits(collateral as int, debt as int, price as int) {
            Some(health_spec(collateral as int, debt as int, price as int) as u128)
        } else {
            None
        }),
        r matches Some(v) ==> v == health_spec(collateral as int, debt as int, price as int),
{
    if debt == 0 {
        return Some(MAX_HEALTH);
    }
    let value = match asset_value(collateral, price) {
        Some(v) => v,
        None => return None,
    };
    let scaled = match value.checked_mul(100) {
        Some(s) => s,
        None => return None,
    };
    let debt_value = match debt.checked_mul(UNIT_TO_WAD) {
        Some(d) => d,
        None => return None,
    };
    proof {
        assert(debt_value > 0) by (nonlinear_arith)
            requires
                debt > 0,
                debt_value == debt * UNIT_TO_WAD,
        ;
    }
    Some(scaled / debt_value)
}

} // verus!
