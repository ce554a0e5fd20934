//! After a successful claim the state is such that the same claim made
//! again pays nothing.

use stello_pay::address::Address;
use stello_pay::contract::PayrollContract;
use stello_pay::storage::PayrollError;

const ONE_DAY: u64 = 86400;

fn setup_contract() -> PayrollContract {
    let mut contract = PayrollContract::new();
    contract.initialize(Address::new(1)).unwrap();
    contract
}

#[test]
fn test_claim_payroll_state_updated_prevents_double_claim() {
    let mut client = setup_contract();
    let employer = Address::new(2);
    let token = Address::new(3);
    let employee = Address::new(4);
    let salary = 1000i128;
    let grace = 604800u64;
    let mut now = 0u64;

    let agreement_id = client.create_payroll_agreement(employer, token, grace);
    client.add_employee_to_agreement(employer, agreement_id, employee, salary).unwrap();
    client.activate_agreement(employer, agreement_id, now).unwrap();

    client.set_agreement_escrow_balance(employer, agreement_id, token, 10000).unwrap();
    client.set_agreement_period_duration(employer, agreement_id, ONE_DAY).unwrap();

    now += ONE_DAY + 1;

    let res = client.claim_payroll(employee, agreement_id, 0, now);
    assert!(res.is_ok());

    let claimed = client.get_employee_claimed_periods(agreement_id, 0);
    assert_eq!(claimed, 1);

    let res2 = client.claim_payroll(employee, agreement_id, 0, now);
    assert!(res2.is_err(), "second claim must fail (no periods to claim)");
    assert_eq!(res2, Err(PayrollError::NoPeriodsToClaim));
}

#[test]
fn test_claim_time_based_state_updated_prevents_double_claim() {
    let mut client = setup_contract();
    let employer = Address::new(2);
    let contributor = Address::new(5);
    let token = Address::new(3);
    let amount_per_period = 1000i128;
    let period_seconds = ONE_DAY;
    let num_periods = 4u32;
    let mut now = 0u64;

    let agreement_id = client
        .create_escrow_agreement(
            employer,
            contributor,
            token,
            amount_per_period,
            period_seconds,
            num_periods,
        )
        .unwrap();
    client.activate_agreement(employer, agreement_id, now).unwrap();
    client.set_agreement_escrow_balance(employer, agreement_id, token, 4000).unwrap();

    now += period_seconds + 1;

    let res = client.claim_time_based(contributor, agreement_id, now);
    assert!(res.is_ok());
    let claimed = client.get_claimed_periods(agreement_id);
    assert_eq!(claimed, 1);

    let res2 = client.claim_time_based(contributor, agreement_id, now);
    assert!(res2.is_err(), "second claim in same period must fail");
    assert_eq!(client.get_claimed_periods(agreement_id), 1);
}
