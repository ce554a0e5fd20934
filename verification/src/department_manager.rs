//! Organizations, their departments, and the assignment of employees to
//! departments: each employee sits in at most one department of an
//! organization.

use vstd::prelude::*;
use crate::address::Address;

verus! {

/// An organization.
#[derive(Debug, PartialEq, Eq)]
pub struct Organization {
    pub id: u128,
    pub name: String,
    pub owner: Address,
    pub created_at: u64,
}

/// A department of an organization, top-level or below a parent department.
#[derive(Debug, PartialEq, Eq)]
pub struct Department {
    pub id: u128,
    pub org_id: u128,
    pub name: String,
    pub parent_id: Option<u128>,
    pub created_at: u64,
}

/// Why a call was refused. A refused call leaves the state as it was.
#[derive(Clone, Copy, Debug, PartialEq, Eq, Structural)]
pub enum DepartmentError {
    NotInitialized,
    AlreadyInitialized,
    OrganizationNotFound,
    /// The caller does not own the organization.
    NotOrganizationOwner,
    ParentNotFound,
    /// The parent department belongs to another organization.
    ParentInOtherOrganization,
    DepartmentNotFound,
    /// The department belongs to another organization.
    DepartmentInOtherOrganization,
    /// The department's list of employees is full.
    Overflow,
}

/// The place of an employee in an organization.
#[derive(Clone, Copy, Debug, PartialEq, Eq, Structural)]
pub struct Assignment {
    pub employee: Address,
    pub department_id: u128,
}

/// What is stored for one organization.
pub struct OrganizationEntry {
    pub organization: Organization,
    /// The ids of the organization's departments, oldest first.
    pub departments: Vec<u128>,
    /// The department of each assigned employee.
    pub assignments: Vec<Assignment>,
}

/// What is stored for one department.
pub struct DepartmentEntry {
    pub department: Department,
    /// The ids of the departments directly below this one, oldest first.
    pub children: Vec<u128>,
    /// The employees of the department, in order of assignment.
    pub employees: Vec<Address>,
}

/// The mathematical value of an [`OrganizationEntry`].
pub struct OrganizationView {
    pub organization: Organization,
    /// The ids of the organization's departments, oldest first.
    pub departments: Seq<u128>,
    /// The department of each assigned employee; no employee occurs twice.
    pub assignments: Seq<Assignment>,
}

/// The mathematical value of a [`DepartmentEntry`].
pub struct DepartmentView {
    pub department: Department,
    /// The ids of the departments directly below this one, oldest first.
    pub children: Seq<u128>,
    /// The employees of the department, in order of assignment.
    pub employees: Seq<Address>,
}

/// The department manager's state.
pub struct DepartmentManagerContract {
    admin: Option<Address>,
    organizations: Vec<OrganizationEntry>,
    departments: Vec<DepartmentEntry>,
}

/// The mathematical value of a [`DepartmentManagerContract`].
pub struct ManagerView {
    pub admin: Option<Address>,
    /// The organizations; the one with id `n` is at `n - 1`.
    pub organizations: Seq<OrganizationView>,
    /// The departments of all organizations; the one with id `n` is at `n - 1`.
    pub departments: Seq<DepartmentView>,
}

/// What a department report holds: the number of employees, the ids of the
/// child departments and the employees.
pub struct DepartmentReport {
    pub employee_count: u32,
    pub children: Vec<u128>,
    pub employees: Vec<Address>,
}

impl View for OrganizationEntry {
    type V = OrganizationView;

    open spec fn view(&self) -> OrganizationView {
        OrganizationView {
            organization: self.organization,
            departments: self.departments@,
            assignments: self.assignments@,
        }
    }
}

impl View for DepartmentEntry {
    type V = DepartmentView;

    open spec fn view(&self) -> DepartmentView {
        DepartmentView {
            department: self.department,
            children: self.children@,
            employees: self.employees@,
        }
    }
}

impl View for DepartmentManagerContract {
    type V = ManagerView;

    closed spec fn view(&self) -> ManagerView {
        ManagerView {
            admin: self.admin,
            organizations: Seq::new(self.organizations@.len(), |i: int| self.organizations@[i]@),
            departments: Seq::new(self.departments@.len(), |i: int| self.departments@[i]@),
        }
    }
}

/// The position of the first assignment of `employee` in `assignments`, or
/// the length of `assignments` if there is none.
pub open spec fn assignment_index(assignments: Seq<Assignment>, employee: Address) -> int
    decreases assignments.len(),
{
    if assignments.len() == 0 {
        0
    } else if assignments[0].employee == employee {
        0
    } else {
        1 + assignment_index(assignments.skip(1), employee)
    }
}

/// The department that `assignments` gives to `employee`, if any.
pub open spec fn assigned_department(assignments: Seq<Assignment>, employee: Address) -> Option<
    u128,
> {
    let k = assignment_index(assignments, employee);
    if k < assignments.len() {
        Some(assignments[k].department_id)
    } else {
        None
    }
}

/// `assignments` with `employee` placed in `department_id`: in place of the
/// employee's earlier assignment, or at the end if there was none.
pub open spec fn with_assignment(
    assignments: Seq<Assignment>,
    employee: Address,
    department_id: u128,
) -> Seq<Assignment> {
    let k = assignment_index(assignments, employee);
    if k < assignments.len() {
        assignments.update(k, Assignment { employee, department_id })
    } else {
        assignments.push(Assignment { employee, department_id })
    }
}

/// The position of the first occurrence of `who` in `list`, or the length
/// of `list` if there is none.
pub open spec fn first_index(list: Seq<Address>, who: Address) -> int
    decreases list.len(),
{
    if list.len() == 0 {
        0
    } else if list[0] == who {
        0
    } else {
        1 + first_index(list.skip(1), who)
    }
}

/// `list` without the first occurrence of `who`.
pub open spec fn without_first(list: Seq<Address>, who: Address) -> Seq<Address> {
    let k = first_index(list, who);
    if k < list.len() {
        list.remove(k)
    } else {
        list
    }
}

impl ManagerView {
    /// The organization with this id.
    pub open spec fn organization(self, id: u128) -> Option<OrganizationView> {
        if 1 <= id <= self.organizations.len() {
            Some(self.organizations[id - 1])
        } else {
            None
        }
    }

    /// The department with this id.
    pub open spec fn department(self, id: u128) -> Option<DepartmentView> {
        if 1 <= id <= self.departments.len() {
            Some(self.departments[id - 1])
        } else {
            None
        }
    }

    /// The invariant of the manager: without an admin there are no records;
    /// every record sits at the place its id names, every department
    /// belongs to an organization that exists, every assignment names a
    /// department that exists, and no list has outgrown the range of the
    /// counts given for it.
    pub open spec fn wf(self) -> bool {
        &&& self.admin is None ==> self.organizations.len() == 0 && self.departments.len() == 0
        &&& forall|i: int|
            0 <= i < self.organizations.len() ==> {
                &&& (#[trigger] self.organizations[i]).organization.id == i + 1
                &&& forall|j: int|
                    0 <= j < self.organizations[i].assignments.len() ==> 1 <= (
                    #[trigger] self.organizations[i].assignments[j]).department_id
                        <= self.departments.len()
            }
        &&& forall|i: int|
            0 <= i < self.departments.len() ==> {
                &&& (#[trigger] self.departments[i]).department.id == i + 1
                &&& 1 <= self.departments[i].department.org_id <= self.organizations.len()
                &&& self.departments[i].employees.len() <= u32::MAX
            }
    }
}

/// Why `caller` may not create a department in organization `org_id` below
/// `parent_id`, if anything.
pub open spec fn create_department_error(
    m: ManagerView,
    caller: Address,
    org_id: u128,
    parent_id: Option<u128>,
) -> Option<DepartmentError> {
    if m.admin is None {
        Some(DepartmentError::NotInitialized)
    } else if m.organization(org_id) is None {
        Some(DepartmentError::OrganizationNotFound)
    } else if m.organization(org_id).unwrap().organization.owner != caller {
        Some(DepartmentError::NotOrganizationOwner)
    } else if parent_id is Some && m.department(parent_id.unwrap()) is None {
        Some(DepartmentError::ParentNotFound)
    } else if parent_id is Some && m.department(parent_id.unwrap()).unwrap().department.org_id
        != org_id {
        Some(DepartmentError::ParentInOtherOrganization)
    } else {
        None
    }
}

/// The state after a department named `name` was created at `now` in
/// organization `org_id` below `parent_id`: the new department has no
/// children and no employees, and its id is appended to the departments of
/// its organization and to the children of its parent.
pub open spec fn after_create_department(
    m: ManagerView,
    org_id: u128,
    name: String,
    parent_id: Option<u128>,
    now: u64,
) -> ManagerView {
    let id = (m.departments.len() + 1) as u128;
    let org = m.organizations[org_id - 1];
    let listed = m.departments.push(
        DepartmentView {
            department: Department { id, org_id, name, parent_id, created_at: now },
            children: Seq::empty(),
            employees: Seq::empty(),
        },
    );
    ManagerView {
        organizations: m.organizations.update(
            org_id - 1,
            OrganizationView { departments: org.departments.push(id), ..org },
        ),
        departments: match parent_id {
            Some(pid) => listed.update(
                pid - 1,
                DepartmentView { children: listed[pid - 1].children.push(id), ..listed[pid - 1] },
            ),
            None => listed,
        },
        ..m
    }
}

/// Why `caller` may not assign an employee to department `department_id`
/// of organization `org_id`, if anything.
pub open spec fn assign_error(m: ManagerView, caller: Address, org_id: u128, department_id: u128)
    -> Option<DepartmentError> {
    if m.admin is None {
        Some(DepartmentError::NotInitialized)
    } else if m.organization(org_id) is None {
        Some(DepartmentError::OrganizationNotFound)
    } else if m.organization(org_id).unwrap().organization.owner != caller {
        Some(DepartmentError::NotOrganizationOwner)
    } else if m.department(department_id) is None {
        Some(DepartmentError::DepartmentNotFound)
    } else if m.department(department_id).unwrap().department.org_id != org_id {
        Some(DepartmentError::DepartmentInOtherOrganization)
    } else if m.department(department_id).unwrap().employees.len() >= u32::MAX {
        Some(DepartmentError::Overflow)
    } else {
        None
    }
}

/// `departments` after `employee` left the department `left`, if that is
/// one: the first occurrence of the employee is gone from its list.
pub open spec fn departments_without(
    departments: Seq<DepartmentView>,
    left: Option<u128>,
    employee: Address,
) -> Seq<DepartmentView> {
    match left {
        Some(d) => departments.update(
            d - 1,
            DepartmentView {
                employees: without_first(departments[d - 1].employees, employee),
                ..departments[d - 1]
            },
        ),
        None => departments,
    }
}

/// The state after `employee` was assigned to department `department_id`
/// of organization `org_id`: the employee has left the department that the
/// organization had given to it before, stands at the end of the new
/// department's list, and the organization's assignment names the new
/// department.
pub open spec fn after_assign(m: ManagerView, org_id: u128, department_id: u128, employee: Address)
    -> ManagerView {
    let org = m.organizations[org_id - 1];
    let left = departments_without(
        m.departments,
        assigned_department(org.assignments, employee),
        employee,
    );
    ManagerView {
        organizations: m.organizations.update(
            org_id - 1,
            OrganizationView {
                assignments: with_assignment(org.assignments, employee, department_id),
                ..org
            },
        ),
        departments: left.update(
            department_id - 1,
            DepartmentView {
                employees: left[department_id - 1].employees.push(employee),
                ..left[department_id - 1]
            },
        ),
        ..m
    }
}

/// The first assignment of an employee lies within the assignments or
/// right behind them, and names that employee.
pub proof fn lemma_assignment_index(assignments: Seq<Assignment>, employee: Address)
    ensures
        0 <= assignment_index(assignments, employee) <= assignments.len(),
        assignment_index(assignments, employee) < assignments.len() ==> assignments[assignment_index(
            assignments,
            employee,
        )].employee == employee,
    decreases assignments.len(),
{
    if assignments.len() > 0 && assignments[0].employee != employee {
        lemma_assignment_index(assignments.skip(1), employee);
    }
}

/// The first occurrence of an address lies within the list or right behind it.
pub proof fn lemma_first_index(list: Seq<Address>, who: Address)
    ensures
        0 <= first_index(list, who) <= list.len(),
        first_index(list, who) < list.len() ==> list[first_index(list, who)] == who,
    decreases list.len(),
{
    if list.len() > 0 && list[0] != who {
        lemma_first_index(list.skip(1), who);
    }
}

fn find_assignment(assignments: &Vec<Assignment>, employee: Address) -> (k: usize)
    ensures
        k == assignment_index(assignments@, employee),
        k <= assignments@.len(),
{
    let mut k: usize = 0;
    proof {
        assert(assignments@.skip(0) =~= assignments@);
    }
    while k < assignments.len()
        invariant
            k <= assignments@.len(),
            assignment_index(assignments@, employee) == k + assignment_index(
                assignments@.skip(k as int),
                employee,
            ),
        decreases assignments@.len() - k,
    {
        proof {
            let rest = assignments@.skip(k as int);
            assert(rest[0] == assignments@[k as int]);
            assert(rest.skip(1) =~= assignments@.skip(k + 1));
        }
        if assignments[k].employee == employee {
            return k;
        }
        k += 1;
    }
    proof {
        assert(assignments@.skip(k as int).len() == 0);
    }
    k
}

fn find_first(list: &Vec<Address>, who: Address) -> (k: usize)
    ensures
        k == first_index(list@, who),
        k <= list@.len(),
{
    let mut k: usize = 0;
    proof {
        assert(list@.skip(0) =~= list@);
    }
    while k < list.len()
        invariant
            k <= list@.len(),
            first_index(list@, who) == k + first_index(list@.skip(k as int), who),
        decreases list@.len() - k,
    {
        proof {
            let rest = list@.skip(k as int);
            assert(rest[0] == list@[k as int]);
            assert(rest.skip(1) =~= list@.skip(k + 1));
        }
        if list[k] == who {
            return k;
        }
        k += 1;
    }
    proof {
        assert(list@.skip(k as int).len() == 0);
    }
    k
}

fn copy_ids(list: &Vec<u128>) -> (copy: Vec<u128>)
    ensures
        copy@ == list@,
{
    let mut copy: Vec<u128> = Vec::new();
    let mut k: usize = 0;
    while k < list.len()
        invariant
            k <= list@.len(),
            copy@ == list@.take(k as int),
        decreases list@.len() - k,
    {
        copy.push(list[k]);
        proof {
            assert(list@.take(k + 1) =~= list@.take(k as int).push(list@[k as int]));
        }
        k += 1;
    }
    proof {
        assert(list@.take(k as int) =~= list@);
    }
    copy
}

fn copy_addresses(list: &Vec<Address>) -> (copy: Vec<Address>)
    ensures
        copy@ == list@,
{
    let mut copy: Vec<Address> = Vec::new();
    let mut k: usize = 0;
    while k < list.len()
        invariant
            k <= list@.len(),
            copy@ == list@.take(k as int),
        decreases list@.len() - k,
    {
        copy.push(list[k]);
        proof {
            assert(list@.take(k + 1) =~= list@.take(k as int).push(list@[k as int]));
        }
        k += 1;
    }
    proof {
        assert(list@.take(k as int) =~= list@);
    }
    copy
}

impl DepartmentManagerContract {
    /// A manager without admin, organizations or departments.
    pub fn new() -> (c: DepartmentManagerContract)
        ensures
            c@.wf(),
            c@.admin is None,
            c@.organizations.len() == 0,
            c@.departments.len() == 0,
    {
        DepartmentManagerContract {
            admin: None,
            organizations: Vec::new(),
            departments: Vec::new(),
        }
    }

    /// Records `admin` as the admin of the manager. This can be done once.
    pub fn initialize(&mut self, admin: Address) -> (res: Result<(), DepartmentError>)
        requires
            old(self)@.wf(),
        ensures
            final(self)@.wf(),
            match res {
                Ok(_) => old(self)@.admin is None && final(self)@ == (ManagerView {
                    admin: Some(admin),
                    ..old(self)@
                }),
                Err(e) => old(self)@.admin is Some && e == DepartmentError::AlreadyInitialized
                    && final(self)@ == old(self)@,
            },
    {
        if self.admin.is_some() {
            return Err(DepartmentError::AlreadyInitialized);
        }
        self.admin = Some(admin);
        proof {
            assert(self@.organizations =~= old(self)@.organizations);
            assert(self@.departments =~= old(self)@.departments);
        }
        Ok(())
    }

    /// Creates an organization named `name` for `owner`, who is the caller,
    /// and returns its id: one more than the number of organizations
    /// created before. The new organization has no departments.
    pub fn create_organization(&mut self, owner: Address, name: String, now: u64) -> (res: Result<
        u128,
        DepartmentError,
    >)
        requires
            old(self)@.wf(),
        ensures
            final(self)@.wf(),
            match res {
                Ok(id) => {
                    &&& old(self)@.admin is Some
                    &&& id == old(self)@.organizations.len() + 1
                    &&& final(self)@ == (ManagerView {
                        organizations: old(self)@.organizations.push(
                            OrganizationView {
                                organization: Organization { id, name, owner, created_at: now },
                                departments: Seq::empty(),
                                assignments: Seq::empty(),
                            },
                        ),
                        ..old(self)@
                    })
                },
                Err(e) => {
                    &&& old(self)@.admin is None
                    &&& e == DepartmentError::NotInitialized
                    &&& final(self)@ == old(self)@
                },
            },
    {
        if self.admin.is_none() {
            return Err(DepartmentError::NotInitialized);
        }
        let id: u128 = self.organizations.len() as u128 + 1;
        let entry = OrganizationEntry {
            organization: Organization { id, name, owner, created_at: now },
            departments: Vec::new(),
            assignments: Vec::new(),
        };
        proof {
            assert(entry@.departments =~= Seq::empty());
            assert(entry@.assignments =~= Seq::empty());
        }
        self.organizations.push(entry);
        proof {
            assert(self@.organizations =~= old(self)@.organizations.push(entry@));
            assert(self@.departments =~= old(self)@.departments);
        }
        Ok(id)
    }

    /// Creates a department named `name` in organization `org_id`, on
    /// behalf of the organization's owner, and returns its id: one more
    /// than the number of departments created before. With a `parent_id`
    /// the department stands below that department, which must belong to
    /// the same organization.
    pub fn create_department(
        &mut self,
        caller: Address,
        org_id: u128,
        name: String,
        parent_id: Option<u128>,
        now: u64,
    ) -> (res: Result<u128, DepartmentError>)
        requires
            old(self)@.wf(),
        ensures
            final(self)@.wf(),
            match res {
                Ok(id) => {
                    &&& create_department_error(old(self)@, caller, org_id, parent_id) is None
                    &&& id == old(self)@.departments.len() + 1
                    &&& final(self)@ == after_create_department(
                        old(self)@,
                        org_id,
                        name,
                        parent_id,
                        now,
                    )
                },
                Err(e) => {
                    &&& create_department_error(old(self)@, caller, org_id, parent_id) == Some(e)
                    &&& final(self)@ == old(self)@
                },
            },
    {
        if self.admin.is_none() {
            return Err(DepartmentError::NotInitialized);
        }
        if org_id < 1 || org_id > self.organizations.len() as u128 {
            return Err(DepartmentError::OrganizationNotFound);
        }
        let o: usize = (org_id - 1) as usize;
        if self.organizations[o].organization.owner != caller {
            return Err(DepartmentError::NotOrganizationOwner);
        }
        match parent_id {
            Some(pid) => {
                if pid < 1 || pid > self.departments.len() as u128 {
                    return Err(DepartmentError::ParentNotFound);
                }
                if self.departments[(pid - 1) as usize].department.org_id != org_id {
                    return Err(DepartmentError::ParentInOtherOrganization);
                }
            },
            None => {},
        }
        let id: u128 = self.departments.len() as u128 + 1;
        let entry = DepartmentEntry {
            department: Department { id, org_id, name, parent_id, created_at: now },
            children: Vec::new(),
            employees: Vec::new(),
        };
        proof {
            assert(entry@.children =~= Seq::empty());
            assert(entry@.employees =~= Seq::empty());
        }
        self.departments.push(entry);
        self.organizations[o].departments.push(id);
        match parent_id {
            Some(pid) => {
                self.departments[(pid - 1) as usize].children.push(id);
            },
            None => {},
        }
        proof {
            let goal = after_create_department(old(self)@, org_id, name, parent_id, now);
            assert(self@.organizations =~= goal.organizations);
            assert(self@.departments =~= goal.departments);
        }
        Ok(id)
    }

    /// Assigns `employee` to department `department_id` of organization
    /// `org_id`, on behalf of the organization's owner. An employee that the
    /// organization had in a department before leaves it first.
    pub fn assign_employee_to_department(
        &mut self,
        caller: Address,
        org_id: u128,
        department_id: u128,
        employee: Address,
    ) -> (res: Result<(), DepartmentError>)
        requires
            old(self)@.wf(),
        ensures
            final(self)@.wf(),
            match res {
                Ok(_) => {
                    &&& assign_error(old(self)@, caller, org_id, department_id) is None
                    &&& final(self)@ == after_assign(old(self)@, org_id, department_id, employee)
                },
                Err(e) => {
                    &&& assign_error(old(self)@, caller, org_id, department_id) == Some(e)
                    &&& final(self)@ == old(self)@
                },
            },
    {
        if self.admin.is_none() {
            return Err(DepartmentError::NotInitialized);
        }
        if org_id < 1 || org_id > self.organizations.len() as u128 {
            return Err(DepartmentError::OrganizationNotFound);
        }
        let o: usize = (org_id - 1) as usize;
        if self.organizations[o].organization.owner != caller {
            return Err(DepartmentError::NotOrganizationOwner);
        }
        if department_id < 1 || department_id > self.departments.len() as u128 {
            return Err(DepartmentError::DepartmentNotFound);
        }
        let d: usize = (department_id - 1) as usize;
        if self.departments[d].department.org_id != org_id {
            return Err(DepartmentError::DepartmentInOtherOrganization);
        }
        if self.departments[d].employees.len() >= u32::MAX as usize {
            return Err(DepartmentError::Overflow);
        }
        let ghost before = self@;
        let k = find_assignment(&self.organizations[o].assignments, employee);
        proof {
            lemma_assignment_index(before.organizations[o as int].assignments, employee);
        }
        if k < self.organizations[o].assignments.len() {
            let left = self.organizations[o].assignments[k].department_id;
            assert(before.organizations[o as int].assignments[k as int].department_id == left);
            let l: usize = (left - 1) as usize;
            let at = find_first(&self.departments[l].employees, employee);
            proof {
                lemma_first_index(before.departments[l as int].employees, employee);
            }
            if at < self.departments[l].employees.len() {
                self.departments[l].employees.remove(at);
            }
            self.organizations[o].assignments[k].department_id = department_id;
        } else {
            self.organizations[o].assignments.push(Assignment { employee, department_id });
        }
        self.departments[d].employees.push(employee);
        proof {
            let goal = after_assign(before, org_id, department_id, employee);
            assert(self@.organizations =~= goal.organizations);
            assert(self@.departments =~= goal.departments);
        }
        Ok(())
    }

    /// The record of organization `org_id`.
    pub fn get_organization(&self, org_id: u128) -> (res: Result<Organization, DepartmentError>)
        ensures
            match res {
                Ok(org) => self@.organization(org_id) is Some && org == self@.organization(
                    org_id,
                ).unwrap().organization,
                Err(e) => self@.organization(org_id) is None && e
                    == DepartmentError::OrganizationNotFound,
            },
    {
        if org_id < 1 || org_id > self.organizations.len() as u128 {
            return Err(DepartmentError::OrganizationNotFound);
        }
        let org = &self.organizations[(org_id - 1) as usize].organization;
        Ok(
            Organization {
                id: org.id,
                name: org.name.clone(),
                owner: org.owner,
                created_at: org.created_at,
            },
        )
    }

    /// The record of department `department_id`.
    pub fn get_department(&self, department_id: u128) -> (res: Result<Department, DepartmentError>)
        ensures
            match res {
                Ok(dept) => self@.department(department_id) is Some && dept == self@.department(
                    department_id,
                ).unwrap().department,
                Err(e) => self@.department(department_id) is None && e
                    == DepartmentError::DepartmentNotFound,
            },
    {
        if department_id < 1 || department_id > self.departments.len() as u128 {
            return Err(DepartmentError::DepartmentNotFound);
        }
        let dept = &self.departments[(department_id - 1) as usize].department;
        Ok(
            Department {
                id: dept.id,
                org_id: dept.org_id,
                name: dept.name.clone(),
                parent_id: dept.parent_id,
                created_at: dept.created_at,
            },
        )
    }

    /// The ids of the departments of organization `org_id`, oldest first;
    /// empty if there is no such organization.
    pub fn get_org_departments(&self, org_id: u128) -> (list: Vec<u128>)
        ensures
            list@ == match self@.organization(org_id) {
                Some(org) => org.departments,
                None => Seq::empty(),
            },
    {
        if org_id < 1 || org_id > self.organizations.len() as u128 {
            return Vec::new();
        }
        copy_ids(&self.organizations[(org_id - 1) as usize].departments)
    }

    /// The employees of department `department_id`, in order of
    /// assignment; empty if there is no such department.
    pub fn get_department_employees(&self, department_id: u128) -> (list: Vec<Address>)
        ensures
            list@ == match self@.department(department_id) {
                Some(dept) => dept.employees,
                None => Seq::empty(),
            },
    {
        if department_id < 1 || department_id > self.departments.len() as u128 {
            return Vec::new();
        }
        copy_addresses(&self.departments[(department_id - 1) as usize].employees)
    }

    /// The department that organization `org_id` has given to `employee`,
    /// if any.
    pub fn get_employee_department(&self, employee: Address, org_id: u128) -> (found: Option<u128>)
        ensures
            found == match self@.organization(org_id) {
                Some(org) => assigned_department(org.assignments, employee),
                None => None,
            },
    {
        if org_id < 1 || org_id > self.organizations.len() as u128 {
            return None;
        }
        let assignments = &self.organizations[(org_id - 1) as usize].assignments;
        let k = find_assignment(assignments, employee);
        if k < assignments.len() {
            Some(assignments[k].department_id)
        } else {
            None
        }
    }

    /// The report on department `department_id`: how many employees it
    /// has, its child departments and its employees. For a department that
    /// does not exist the report is empty.
    pub fn get_department_report(&self, department_id: u128) -> (report: DepartmentReport)
        requires
            self@.wf(),
        ensures
            match self@.department(department_id) {
                Some(dept) => {
                    &&& report.employee_count == dept.employees.len()
                    &&& report.children@ == dept.children
                    &&& report.employees@ == dept.employees
                },
                None => {
                    &&& report.employee_count == 0
                    &&& report.children@.len() == 0
                    &&& report.employees@.len() == 0
                },
            },
    {
        if department_id < 1 || department_id > self.departments.len() as u128 {
            return DepartmentReport {
                employee_count: 0,
                children: Vec::new(),
                employees: Vec::new(),
            };
        }
        let entry = &self.departments[(department_id - 1) as usize];
        assert(self@.departments[department_id - 1].employees.len() <= u32::MAX);
        DepartmentReport {
            employee_count: entry.employees.len() as u32,
            children: copy_ids(&entry.children),
            employees: copy_addresses(&entry.employees),
        }
    }
}

/// The state that these parts make up.
pub open spec fn assembled(
    admin: Option<Address>,
    organizations: Seq<OrganizationEntry>,
    departments: Seq<DepartmentEntry>,
) -> ManagerView {
    ManagerView {
        admin,
        organizations: Seq::new(organizations.len(), |i: int| organizations[i]@),
        departments: Seq::new(departments.len(), |i: int| departments[i]@),
    }
}

/// The organization at position `i` has the id `i + 1`, and each of its
/// assignments names one of the first `departments` departments.
pub open spec fn organization_fits(org: OrganizationView, i: int, departments: int) -> bool {
    &&& org.organization.id == i + 1
    &&& forall|j: int|
        0 <= j < org.assignments.len() ==> 1 <= (#[trigger] org.assignments[j]).department_id
            <= departments
}

/// The department at position `i` has the id `i + 1`, belongs to one of
/// the first `organizations` organizations, and its list of employees is
/// not too long to be counted.
pub open spec fn department_fits(dept: DepartmentView, i: int, organizations: int) -> bool {
    &&& dept.department.id == i + 1
    &&& 1 <= dept.department.org_id <= organizations
    &&& dept.employees.len() <= u32::MAX
}

fn organization_in_order(org: &OrganizationEntry, i: usize, departments: usize) -> (ok: bool)
    ensures
        ok == organization_fits(org@, i as int, departments as int),
{
    if org.organization.id != i as u128 + 1 {
        return false;
    }
    let mut j: usize = 0;
    while j < org.assignments.len()
        invariant
            j <= org.assignments@.len(),
            org@.assignments == org.assignments@,
            org@.organization.id == i + 1,
            forall|k: int|
                0 <= k < j ==> 1 <= (#[trigger] org.assignments@[k]).department_id <= departments,
        decreases org.assignments@.len() - j,
    {
        let d = org.assignments[j].department_id;
        if d < 1 || d > departments as u128 {
            assert(!(1 <= org@.assignments[j as int].department_id <= departments));
            return false;
        }
        j += 1;
    }
    true
}

impl DepartmentManagerContract {
    /// Puts a manager together from its parts, if they meet its invariant.
    pub fn from_parts(
        admin: Option<Address>,
        organizations: Vec<OrganizationEntry>,
        departments: Vec<DepartmentEntry>,
    ) -> (res: Option<DepartmentManagerContract>)
        ensures
            res is Some <==> assembled(admin, organizations@, departments@).wf(),
            res is Some ==> res.unwrap()@ == assembled(admin, organizations@, departments@),
    {
        let ghost whole = assembled(admin, organizations@, departments@);
        if admin.is_none() && (organizations.len() != 0 || departments.len() != 0) {
            return None;
        }
        let mut i: usize = 0;
        while i < organizations.len()
            invariant
                i <= organizations@.len(),
                admin is None ==> organizations@.len() == 0 && departments@.len() == 0,
                whole == assembled(admin, organizations@, departments@),
                forall|k: int|
                    0 <= k < i ==> organization_fits(
                        (#[trigger] organizations@[k])@,
                        k,
                        departments@.len() as int,
                    ),
            decreases organizations@.len() - i,
        {
            if !organization_in_order(&organizations[i], i, departments.len()) {
                proof {
                    assert(whole.organizations[i as int] == organizations@[i as int]@);
                }
                return None;
            }
            i += 1;
        }
        let mut d: usize = 0;
        while d < departments.len()
            invariant
                d <= departments@.len(),
                admin is None ==> organizations@.len() == 0 && departments@.len() == 0,
                whole == assembled(admin, organizations@, departments@),
                forall|k: int|
                    0 <= k < organizations@.len() ==> organization_fits(
                        (#[trigger] organizations@[k])@,
                        k,
                        departments@.len() as int,
                    ),
                forall|k: int|
                    0 <= k < d ==> department_fits(
                        (#[trigger] departments@[k])@,
                        k,
                        organizations@.len() as int,
                    ),
            decreases departments@.len() - d,
        {
            let entry = &departments[d];
            if entry.department.id != d as u128 + 1 || entry.department.org_id < 1
                || entry.department.org_id > organizations.len() as u128 || entry.employees.len()
                > u32::MAX as usize {
                proof {
                    assert(whole.departments[d as int] == departments@[d as int]@);
                }
                return None;
            }
            d += 1;
        }
        proof {
            assert forall|k: int| 0 <= k < whole.organizations.len() implies {
                &&& (#[trigger] whole.organizations[k]).organization.id == k + 1
                &&& forall|j: int|
                    0 <= j < whole.organizations[k].assignments.len() ==> 1 <= (
                    #[trigger] whole.organizations[k].assignments[j]).department_id
                        <= whole.departments.len()
            } by {
                assert(organization_fits(organizations@[k]@, k, departments@.len() as int));
            }
            assert forall|k: int| 0 <= k < whole.departments.len() implies {
                &&& (#[trigger] whole.departments[k]).department.id == k + 1
                &&& 1 <= whole.departments[k].department.org_id <= whole.organizations.len()
                &&& whole.departments[k].employees.len() <= u32::MAX
            } by {
                assert(department_fits(departments@[k]@, k, organizations@.len() as int));
            }
        }
        Some(DepartmentManagerContract { admin, organizations, departments })
    }

    /// Takes the manager apart: its admin, its organizations and its
    /// departments.
    pub fn into_parts(self) -> (parts: (
        Option<Address>,
        Vec<OrganizationEntry>,
        Vec<DepartmentEntry>,
    ))
        ensures
            self@ == assembled(parts.0, parts.1@, parts.2@),
    {
        (self.admin, self.organizations, self.departments)
    }
}

} // verus!
