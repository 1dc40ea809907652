use palomadex_trader::error::ContractError;
use palomadex_trader::gate::RetryGate;
use palomadex_trader::ledger::Ledger;
use palomadex_trader::quote::calculate_swap_amount;

fn s(x: &str) -> String {
    x.to_string()
}

#[test]
fn swap_amount_exact_values() {
    assert_eq!(calculate_swap_amount(0, 1_000_000, 30), 0);
    assert_eq!(calculate_swap_amount(1000, 1_000_000, 30), 499);
    assert_eq!(calculate_swap_amount(1_000_000, 1_000_000, 30), 413591);
    assert_eq!(calculate_swap_amount(1000, 1000, 0), 414);
    assert_eq!(calculate_swap_amount(500, 1000, 10000), 0);
    assert_eq!(calculate_swap_amount(500, 0, 30), 0);
    assert_eq!(
        calculate_swap_amount(1_000_000_000_000_000_000_000_000_000_000, 100_000_000_000_000_000_000, 30),
        9984888883592543343165700
    );
}

#[test]
fn swap_amount_extremes_fit() {
    assert_eq!(calculate_swap_amount(u128::MAX, 1, 0), 18446744073709551615);
    assert_eq!(calculate_swap_amount(u128::MAX, u128::MAX, 9999), 34021433085701007895472909411656406);
}

#[test]
fn swap_amount_monotone_on_samples() {
    let mut last = 0;
    for input in [0u128, 1, 2, 10, 99, 1000, 12345, 1_000_000, 10_000_000_000] {
        let v = calculate_swap_amount(input, 1_000_000, 30);
        assert!(v >= last);
        assert!(v <= input);
        last = v;
    }
}

#[test]
fn ledger_credit_then_debit_round_trip() {
    let mut l = Ledger::new();
    l.credit(&s("a"), &s("lp"), 40);
    l.credit(&s("a"), &s("lp"), 25);
    assert_eq!(l.debit_checked(&s("a"), &s("lp"), 25), Ok(()));
    assert_eq!(l.balance(&s("a"), &s("lp")), 40);
    assert_eq!(l.balance(&s("b"), &s("lp")), 0);
}

#[test]
fn ledger_checked_debit_refuses_overdraft() {
    let mut l = Ledger::new();
    l.credit(&s("a"), &s("lp"), 10);
    assert_eq!(l.debit_checked(&s("a"), &s("lp"), 11), Err(ContractError::InsufficientLiquidity));
    assert_eq!(l.balance(&s("a"), &s("lp")), 10);
    assert_eq!(l.debit_checked(&s("z"), &s("lp"), 1), Err(ContractError::InsufficientLiquidity));
}

#[test]
fn ledger_floor_debit_stops_at_zero() {
    let mut l = Ledger::new();
    l.credit(&s("a"), &s("x"), 10);
    l.debit_floor(&s("a"), &s("x"), 4);
    assert_eq!(l.balance(&s("a"), &s("x")), 6);
    l.debit_floor(&s("a"), &s("x"), 100);
    assert_eq!(l.balance(&s("a"), &s("x")), 0);
}

#[test]
fn gate_window() {
    let mut g = RetryGate::new();
    assert_eq!(g.allow_attempt(&s("eth"), 1, 100, 30), Ok(()));
    assert_eq!(g.allow_attempt(&s("eth"), 1, 129, 30), Err(ContractError::Pending));
    assert_eq!(g.last_attempt(&s("eth"), 1), Some(100));
    assert_eq!(g.allow_attempt(&s("eth"), 2, 101, 30), Ok(()));
    assert_eq!(g.allow_attempt(&s("bsc"), 1, 101, 30), Ok(()));
    assert_eq!(g.allow_attempt(&s("eth"), 1, 130, 30), Ok(()));
    assert_eq!(g.last_attempt(&s("eth"), 1), Some(130));
}
