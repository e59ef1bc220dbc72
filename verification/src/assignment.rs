//! The assignment consistency rule: an employee does not work at branches
//! in different cities at the same time.
//!
//! Assigning an employee to a branch takes three questions to storage, and
//! what is asked next depends on the last answer. Each step here takes one
//! answer and gives what to ask next, or the error that ends the attempt.
//! The step that allows the insertion can only be reached through the
//! check before it.
//!
//! [`create_branch_employee`] takes these steps on storage kept in memory,
//! which it borrows exclusively: no other attempt comes between its check
//! and its insertion. A caller with shared storage has to see to that
//! itself, by a lock on the employee or a transaction.

use vstd::prelude::*;
use crate::error::DbError;
use crate::models::BranchEmployee;
use crate::storage::{
    city_of, differs, is_assignment_of, lemma_new_assignment_keeps_coherence, passes,
    MemoryStorage, StorageFault, StorageView,
};

verus! {

/// An attempt to assign an employee to a branch, before anything was asked.
/// The first question is the city of [`AssignmentRequest::branch_id`].
pub struct AssignmentRequest {
    employee_id: i32,
    branch_id: i32,
}

/// An attempt whose target city is known. The second question is whether
/// the employee has an assignment to a branch in a city other than
/// [`ConflictQuery::city`].
pub struct ConflictQuery {
    employee_id: i32,
    branch_id: i32,
    city: String,
}

/// An attempt that passed the check. The last step is to insert the
/// assignment of the employee to the branch.
pub struct AssignmentPermit {
    employee_id: i32,
    branch_id: i32,
}

impl AssignmentRequest {
    /// The employee to assign.
    pub closed spec fn employee(&self) -> i32 {
        self.employee_id
    }

    /// The branch to assign to.
    pub closed spec fn branch(&self) -> i32 {
        self.branch_id
    }

    /// Starts an attempt to assign `employee_id` to `branch_id`.
    pub fn new(employee_id: i32, branch_id: i32) -> (request: AssignmentRequest)
        ensures
            request.employee() == employee_id,
            request.branch() == branch_id,
    {
        AssignmentRequest { employee_id, branch_id }
    }

    /// The employee to assign.
    pub fn employee_id(&self) -> (id: i32)
        ensures
            id == self.employee(),
    {
        self.employee_id
    }

    /// The branch whose city is to be looked up.
    pub fn branch_id(&self) -> (id: i32)
        ensures
            id == self.branch(),
    {
        self.branch_id
    }

    /// Takes the outcome of looking up the target branch's city. A failed
    /// lookup ends the attempt with its cause.
    pub fn with_city<E>(self, city: Result<String, E>) -> (next: Result<ConflictQuery, DbError<E>>)
        ensures
            match city {
                Err(cause) => next == Err::<ConflictQuery, DbError<E>>(DbError::Sqlx(cause)),
                Ok(name) => next is Ok && next->Ok_0.employee() == self.employee()
                    && next->Ok_0.branch() == self.branch() && next->Ok_0.target_city() == name@,
            },
    {
        match city {
            Err(cause) => Err(DbError::Sqlx(cause)),
            Ok(name) => Ok(
                ConflictQuery { employee_id: self.employee_id, branch_id: self.branch_id, city: name },
            ),
        }
    }
}

impl ConflictQuery {
    /// The employee to assign.
    pub closed spec fn employee(&self) -> i32 {
        self.employee_id
    }

    /// The branch to assign to.
    pub closed spec fn branch(&self) -> i32 {
        self.branch_id
    }

    /// The city of the branch to assign to.
    pub closed spec fn target_city(&self) -> Seq<char> {
        self.city@
    }

    /// The employee whose assignments are to be searched.
    pub fn employee_id(&self) -> (id: i32)
        ensures
            id == self.employee(),
    {
        self.employee_id
    }

    /// The branch to assign to.
    pub fn branch_id(&self) -> (id: i32)
        ensures
            id == self.branch(),
    {
        self.branch_id
    }

    /// The city that every existing assignment has to share.
    pub fn city(&self) -> (name: &str)
        ensures
            name@ == self.target_city(),
    {
        self.city.as_str()
    }

    /// Takes the answer to whether the employee has an assignment in
    /// another city. A failed query ends the attempt with its cause, a
    /// `true` ends it with `BadInput`, and any other answer, also the
    /// absence of one, allows the insertion.
    pub fn with_answer<E>(self, conflict: Result<Option<bool>, E>) -> (next: Result<
        AssignmentPermit,
        DbError<E>,
    >)
        ensures
            match conflict {
                Err(cause) => next == Err::<AssignmentPermit, DbError<E>>(DbError::Sqlx(cause)),
                Ok(Some(true)) => next == Err::<AssignmentPermit, DbError<E>>(DbError::BadInput),
                Ok(_) => next is Ok && next->Ok_0.employee() == self.employee()
                    && next->Ok_0.branch() == self.branch(),
            },
    {
        match conflict {
            Err(cause) => Err(DbError::Sqlx(cause)),
            Ok(Some(true)) => Err(DbError::BadInput),
            Ok(_) => Ok(
                AssignmentPermit { employee_id: self.employee_id, branch_id: self.branch_id },
            ),
        }
    }
}

impl AssignmentPermit {
    /// The employee to assign.
    pub closed spec fn employee(&self) -> i32 {
        self.employee_id
    }

    /// The branch to assign to.
    pub closed spec fn branch(&self) -> i32 {
        self.branch_id
    }

    /// The employee of the assignment to insert.
    pub fn employee_id(&self) -> (id: i32)
        ensures
            id == self.employee(),
    {
        self.employee_id
    }

    /// The branch of the assignment to insert.
    pub fn branch_id(&self) -> (id: i32)
        ensures
            id == self.branch(),
    {
        self.branch_id
    }

    /// Takes the outcome of the insertion: the stored assignment, or the
    /// cause of the failure.
    pub fn finish<E>(self, inserted: Result<BranchEmployee, E>) -> (res: Result<
        BranchEmployee,
        DbError<E>,
    >)
        ensures
            res == match inserted {
                Err(cause) => Err::<BranchEmployee, DbError<E>>(DbError::Sqlx(cause)),
                Ok(row) => Ok(row),
            },
    {
        match inserted {
            Err(cause) => Err(DbError::Sqlx(cause)),
            Ok(row) => Ok(row),
        }
    }
}

/// How an attempt to assign `employee_id` to `branch_id` ends on `storage`:
/// the target branch must exist, the employee must have no assignment in
/// another city, and the table must have an id left.
pub open spec fn assignment_result(storage: StorageView, employee_id: i32, branch_id: i32)
    -> Result<BranchEmployee, DbError<StorageFault>> {
    match city_of(storage.branches, branch_id) {
        None => Err(DbError::Sqlx(StorageFault::RowNotFound)),
        Some(city) => if storage.has_conflict(employee_id, city) {
            Err(DbError::BadInput)
        } else if storage.last_assignment_id == i32::MAX {
            Err(DbError::Sqlx(StorageFault::OutOfIds))
        } else {
            Ok(
                BranchEmployee {
                    branch_employee_id: Some((storage.last_assignment_id + 1) as i32),
                    employee_id,
                    branch_id,
                },
            )
        },
    }
}

/// What `storage` holds after an attempt to assign `employee_id` to
/// `branch_id`: one more assignment if the attempt succeeds, what it held
/// before if not.
pub open spec fn after_assignment(storage: StorageView, employee_id: i32, branch_id: i32)
    -> StorageView {
    match assignment_result(storage, employee_id, branch_id) {
        Ok(row) => StorageView {
            assignments: storage.assignments.push(row),
            last_assignment_id: (storage.last_assignment_id + 1) as i32,
            ..storage
        },
        Err(_) => storage,
    }
}

/// Assigns the employee `employee_id` to the branch `branch_id`, unless the
/// employee already works at a branch in another city.
///
/// Asks for the target branch's city, then whether an assignment of the
/// employee in another city exists, and inserts only if none does. A
/// failed attempt leaves the storage as it was.
pub fn create_branch_employee(storage: &mut MemoryStorage, employee_id: i32, branch_id: i32) -> (res:
    Result<BranchEmployee, DbError<StorageFault>>)
    requires
        old(storage).wf(),
    ensures
        final(storage).wf(),
        res == assignment_result(old(storage)@, employee_id, branch_id),
        final(storage)@ == after_assignment(old(storage)@, employee_id, branch_id),
{
    let request = AssignmentRequest::new(employee_id, branch_id);
    let city = storage.get_city(request.branch_id());
    let query = match request.with_city(city) {
        Ok(query) => query,
        Err(error) => {
            return Err(error);
        },
    };
    let conflict = storage.exists_conflicting_assignment(query.employee_id(), query.city());
    let permit = match query.with_answer(Ok(Some(conflict))) {
        Ok(permit) => permit,
        Err(error) => {
            return Err(error);
        },
    };
    let inserted = storage.insert_assignment(permit.employee_id(), permit.branch_id());
    permit.finish(inserted)
}

/// Removes every assignment of `employee_id` to `branch_id`. Nothing is
/// checked first, and removing nothing is no error.
pub fn delete_branch_employee(storage: &mut MemoryStorage, employee_id: i32, branch_id: i32) -> (res:
    Result<(), DbError<StorageFault>>)
    requires
        old(storage).wf(),
    ensures
        final(storage).wf(),
        res == Ok::<(), DbError<StorageFault>>(()),
        final(storage)@ == (StorageView {
            assignments: old(storage)@.assignments.filter(
                |row: BranchEmployee| !is_assignment_of(row, employee_id, branch_id),
            ),
            ..old(storage)@
        }),
{
    storage.remove_assignments(employee_id, branch_id);
    Ok(())
}

/// The assignments of the given branch, of the given employee, of both, or
/// all of them, in the order in which they were made.
pub fn get_branch_employee(
    storage: &MemoryStorage,
    branch_id: Option<i32>,
    employee_id: Option<i32>,
) -> (res: Result<Vec<BranchEmployee>, DbError<StorageFault>>)
    ensures
        res is Ok,
        res->Ok_0@ == storage@.assignments.filter(
            |row: BranchEmployee| passes(row, branch_id, employee_id),
        ),
{
    Ok(storage.select_assignments(branch_id, employee_id))
}

/// An attempt to assign an employee succeeds exactly if the target branch
/// exists, no assignment of the employee is to a branch in another city,
/// and an id is left. It fails with `BadInput` exactly if the branch exists
/// and such an assignment does. A failed attempt inserts nothing; a
/// successful one inserts the one row it returns.
pub proof fn lemma_assignment_rule(storage: StorageView, employee_id: i32, branch_id: i32)
    ensures
        assignment_result(storage, employee_id, branch_id) is Ok <==> {
            &&& city_of(storage.branches, branch_id) is Some
            &&& !storage.has_conflict(employee_id, city_of(storage.branches, branch_id)->0)
            &&& storage.last_assignment_id < i32::MAX
        },
        assignment_result(storage, employee_id, branch_id) == Err::<
            BranchEmployee,
            DbError<StorageFault>,
        >(DbError::BadInput) <==> {
            &&& city_of(storage.branches, branch_id) is Some
            &&& storage.has_conflict(employee_id, city_of(storage.branches, branch_id)->0)
        },
        assignment_result(storage, employee_id, branch_id) is Err ==> after_assignment(
            storage,
            employee_id,
            branch_id,
        ) == storage,
        assignment_result(storage, employee_id, branch_id) is Ok ==> after_assignment(
            storage,
            employee_id,
            branch_id,
        ).assignments == storage.assignments.push(
            assignment_result(storage, employee_id, branch_id)->Ok_0,
        ),
{
}

/// An employee without any assignment can be assigned to every branch that
/// exists, whatever its city, as long as an id is left.
pub proof fn lemma_first_assignment_succeeds(storage: StorageView, employee_id: i32, branch_id: i32)
    requires
        city_of(storage.branches, branch_id) is Some,
        storage.last_assignment_id < i32::MAX,
        forall|i: int|
            0 <= i < storage.assignments.len() ==> (#[trigger] storage.assignments[i]).employee_id
                != employee_id,
    ensures
        assignment_result(storage, employee_id, branch_id) is Ok,
        after_assignment(storage, employee_id, branch_id).assignments.len()
            == storage.assignments.len() + 1,
{
}

/// An employee whose assignments are all to branches in the target
/// branch's city can be assigned, as long as an id is left.
pub proof fn lemma_same_city_assignment_succeeds(
    storage: StorageView,
    employee_id: i32,
    branch_id: i32,
)
    requires
        city_of(storage.branches, branch_id) is Some,
        storage.last_assignment_id < i32::MAX,
        forall|i: int|
            0 <= i < storage.assignments.len() && (#[trigger] storage.assignments[i]).employee_id
                == employee_id ==> city_of(storage.branches, storage.assignments[i].branch_id)
                == city_of(storage.branches, branch_id),
    ensures
        assignment_result(storage, employee_id, branch_id) is Ok,
        after_assignment(storage, employee_id, branch_id).assignments.len()
            == storage.assignments.len() + 1,
{
}

/// An employee with an assignment to a branch in another city than the
/// target branch's is refused with `BadInput`, and nothing is inserted.
pub proof fn lemma_cross_city_assignment_fails(
    storage: StorageView,
    employee_id: i32,
    branch_id: i32,
    existing: int,
)
    requires
        city_of(storage.branches, branch_id) is Some,
        0 <= existing < storage.assignments.len(),
        storage.assignments[existing].employee_id == employee_id,
        city_of(storage.branches, storage.assignments[existing].branch_id) is Some,
        city_of(storage.branches, storage.assignments[existing].branch_id) != city_of(
            storage.branches,
            branch_id,
        ),
    ensures
        assignment_result(storage, employee_id, branch_id) == Err::<
            BranchEmployee,
            DbError<StorageFault>,
        >(DbError::BadInput),
        after_assignment(storage, employee_id, branch_id) == storage,
{
}

/// Of two attempts, one after the other, to assign one employee to
/// branches in different cities, at most one succeeds.
pub proof fn lemma_cross_city_attempts_exclude(
    storage: StorageView,
    employee_id: i32,
    first_branch: i32,
    second_branch: i32,
)
    requires
        city_of(storage.branches, first_branch) != city_of(storage.branches, second_branch),
    ensures
        !(assignment_result(storage, employee_id, first_branch) is Ok && assignment_result(
            after_assignment(storage, employee_id, first_branch),
            employee_id,
            second_branch,
        ) is Ok),
{
    let first = assignment_result(storage, employee_id, first_branch);
    if first is Ok {
        let after = after_assignment(storage, employee_id, first_branch);
        let last = storage.assignments.len() as int;
        assert(after.assignments[last] == first->Ok_0);
        assert(after.branches == storage.branches);
        if city_of(storage.branches, second_branch) is Some {
            assert(differs(
                city_of(after.branches, after.assignments[last].branch_id),
                city_of(storage.branches, second_branch)->0,
            ));
        }
    }
}

/// An assignment that the rule lets through keeps the storage coherent.
pub proof fn lemma_assignment_keeps_coherence(
    storage: StorageView,
    employee_id: i32,
    branch_id: i32,
)
    requires
        storage.coherent(),
    ensures
        after_assignment(storage, employee_id, branch_id).coherent(),
{
    match assignment_result(storage, employee_id, branch_id) {
        Ok(row) => {
            lemma_new_assignment_keeps_coherence(
                storage,
                after_assignment(storage, employee_id, branch_id),
                row,
            );
        },
        Err(_) => {},
    }
}

} // verus!
