//! Organizations, departments and the assignment of employees.

use stello_pay::address::Address;
use stello_pay::department_manager::{DepartmentError, DepartmentManagerContract};

fn setup_contract() -> DepartmentManagerContract {
    let mut client = DepartmentManagerContract::new();
    client.initialize(Address::new(1)).unwrap();
    client
}

fn symbol(text: &str) -> String {
    String::from(text)
}

#[test]
fn test_department_test_initialize() {
    let mut client = setup_contract();
    let org_id = client.create_organization(Address::new(2), symbol("Test"), 0).unwrap();
    assert_eq!(org_id, 1);
}

#[test]
fn test_initialize_twice_is_refused() {
    let mut client = DepartmentManagerContract::new();
    let admin = Address::new(1);
    client.initialize(admin).unwrap();
    assert_eq!(client.initialize(admin), Err(DepartmentError::AlreadyInitialized));
}

#[test]
fn test_create_organization() {
    let mut client = setup_contract();
    let owner = Address::new(2);
    let name = symbol("Acme");
    let org_id = client.create_organization(owner, name.clone(), 0).unwrap();
    assert_eq!(org_id, 1);
    let org = client.get_organization(org_id).unwrap();
    assert_eq!(org.id, 1);
    assert_eq!(org.owner, owner);
    assert_eq!(org.name, name);
}

#[test]
fn test_create_department_top_level() {
    let mut client = setup_contract();
    let owner = Address::new(2);
    let org_id = client.create_organization(owner, symbol("Acme"), 0).unwrap();
    let dept_id = client.create_department(owner, org_id, symbol("Engineering"), None, 0).unwrap();
    assert_eq!(dept_id, 1);
    let dept = client.get_department(dept_id).unwrap();
    assert_eq!(dept.org_id, org_id);
    assert_eq!(dept.parent_id, None);
    assert_eq!(dept.name, symbol("Engineering"));
}

#[test]
fn test_create_department_hierarchy() {
    let mut client = setup_contract();
    let owner = Address::new(2);
    let org_id = client.create_organization(owner, symbol("Acme"), 0).unwrap();
    let eng_id = client.create_department(owner, org_id, symbol("Engineering"), None, 0).unwrap();
    let backend_id =
        client.create_department(owner, org_id, symbol("Backend"), Some(eng_id), 0).unwrap();
    let dept = client.get_department(backend_id).unwrap();
    assert_eq!(dept.parent_id, Some(eng_id));
    let report = client.get_department_report(eng_id);
    assert_eq!(report.employee_count, 0);
    assert_eq!(report.children.len(), 1);
    assert_eq!(report.children[0], backend_id);
}

#[test]
fn test_assign_employee_and_report() {
    let mut client = setup_contract();
    let owner = Address::new(2);
    let org_id = client.create_organization(owner, symbol("Acme"), 0).unwrap();
    let dept_id = client.create_department(owner, org_id, symbol("Eng"), None, 0).unwrap();
    let emp = Address::new(3);
    client.assign_employee_to_department(owner, org_id, dept_id, emp).unwrap();

    let employees = client.get_department_employees(dept_id);
    assert_eq!(employees.len(), 1);
    assert_eq!(employees[0], emp);

    let emp_dept = client.get_employee_department(emp, org_id);
    assert_eq!(emp_dept, Some(dept_id));

    let report = client.get_department_report(dept_id);
    assert_eq!(report.employee_count, 1);
    assert_eq!(report.employees.len(), 1);
    assert_eq!(report.employees[0], emp);
}

#[test]
fn test_reassign_employee_to_another_department() {
    let mut client = setup_contract();
    let owner = Address::new(2);
    let org_id = client.create_organization(owner, symbol("Acme"), 0).unwrap();
    let dept_a = client.create_department(owner, org_id, symbol("A"), None, 0).unwrap();
    let dept_b = client.create_department(owner, org_id, symbol("B"), None, 0).unwrap();
    let emp = Address::new(3);
    client.assign_employee_to_department(owner, org_id, dept_a, emp).unwrap();
    assert_eq!(client.get_employee_department(emp, org_id), Some(dept_a));
    client.assign_employee_to_department(owner, org_id, dept_b, emp).unwrap();
    assert_eq!(client.get_employee_department(emp, org_id), Some(dept_b));
    assert_eq!(client.get_department_employees(dept_a).len(), 0);
    assert_eq!(client.get_department_employees(dept_b).len(), 1);
}

#[test]
fn test_create_department_by_another_caller_is_refused() {
    let mut client = setup_contract();
    let owner = Address::new(2);
    let other = Address::new(3);
    let org_id = client.create_organization(owner, symbol("Acme"), 0).unwrap();
    assert_eq!(
        client.create_department(other, org_id, symbol("Eng"), None, 0),
        Err(DepartmentError::NotOrganizationOwner)
    );
}

#[test]
fn test_get_organization_that_is_missing() {
    let client = setup_contract();
    assert_eq!(client.get_organization(999), Err(DepartmentError::OrganizationNotFound));
}
