//! What was stored for an agreement is what is read back.

use stello_pay::address::Address;
use stello_pay::contract::PayrollContract;
use stello_pay::storage::{AgreementMode, AgreementStatus};

fn setup_contract() -> PayrollContract {
    let mut contract = PayrollContract::new();
    contract.initialize(Address::new(1)).unwrap();
    contract
}

#[test]
fn test_agreement_data_integrity_after_creation() {
    let mut client = setup_contract();
    let employer = Address::new(2);
    let token = Address::new(3);
    let grace = 604800u64;

    let agreement_id = client.create_payroll_agreement(employer, token, grace);
    let agreement = client.get_agreement(agreement_id).expect("Agreement must exist");
    assert_eq!(agreement.id, agreement_id);
    assert_eq!(agreement.employer, employer);
    assert_eq!(agreement.token, token);
    assert_eq!(agreement.status, AgreementStatus::Created);
    assert_eq!(agreement.mode, AgreementMode::Payroll);
    assert_eq!(agreement.grace_period_seconds, grace);
}

#[test]
fn test_employee_data_integrity_after_add() {
    let mut client = setup_contract();
    let employer = Address::new(2);
    let token = Address::new(3);
    let employee = Address::new(4);
    let salary = 2000i128;
    let grace = 604800u64;

    let agreement_id = client.create_payroll_agreement(employer, token, grace);
    client.add_employee_to_agreement(employer, agreement_id, employee, salary).unwrap();

    let employees = client.get_agreement_employees(agreement_id);
    assert_eq!(employees.len(), 1);
    assert_eq!(employees.get(0).copied(), Some(employee));
}

#[test]
fn test_activation_state_integrity() {
    let mut client = setup_contract();
    let employer = Address::new(2);
    let token = Address::new(3);
    let employee = Address::new(4);
    let grace = 604800u64;

    let agreement_id = client.create_payroll_agreement(employer, token, grace);
    client.add_employee_to_agreement(employer, agreement_id, employee, 1000i128).unwrap();
    assert_eq!(client.get_agreement(agreement_id).unwrap().status, AgreementStatus::Created);

    client.activate_agreement(employer, agreement_id, 12345).unwrap();
    let agreement = client.get_agreement(agreement_id).unwrap();
    assert_eq!(agreement.status, AgreementStatus::Active);
    assert!(agreement.activated_at.is_some());
}
