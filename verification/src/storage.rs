//! Storage kept in memory: the tables of branches, users and assignments
//! that the guard and the consistency rule ask and change.
//!
//! Rows are kept in the order in which they were inserted. A lookup that
//! wants one row takes the first that matches; a change or a removal takes
//! every row that matches. An operation borrows the storage exclusively
//! from its first question to its last step, so no other operation comes
//! between a check and the change it allows.

use vstd::prelude::*;
use crate::models::{Branch, BranchEmployee, BranchView, User, UserView};
use crate::text::same_text;

verus! {

/// Why this storage could not do what it was asked.
#[derive(Debug, Clone, Copy, PartialEq, Eq, Structural)]
pub enum StorageFault {
    /// A lookup that wants one row found none.
    RowNotFound,
    /// The table has handed out its last identifier.
    OutOfIds,
}

/// The city of the first branch in `branches` with the id `branch_id`.
pub open spec fn city_of(branches: Seq<BranchView>, branch_id: i32) -> Option<Seq<char>>
    decreases branches.len(),
{
    if branches.len() == 0 {
        None
    } else if branches[0].branch_id == Some(branch_id) {
        Some(branches[0].city)
    } else {
        city_of(branches.drop_first(), branch_id)
    }
}

/// The first user in `users` with the name `username`.
pub open spec fn user_named(users: Seq<UserView>, username: Seq<char>) -> Option<UserView>
    decreases users.len(),
{
    if users.len() == 0 {
        None
    } else if users[0].username == username {
        Some(users[0])
    } else {
        user_named(users.drop_first(), username)
    }
}

/// The home branch of the first user in `users` with the name `username`.
pub open spec fn home_branch_by_name(users: Seq<UserView>, username: Seq<char>) -> Option<i32> {
    match user_named(users, username) {
        Some(user) => Some(user.branch_id),
        None => None,
    }
}

/// The home branch of the first user in `users` with the id `user_id`.
pub open spec fn home_branch_by_id(users: Seq<UserView>, user_id: i32) -> Option<i32>
    decreases users.len(),
{
    if users.len() == 0 {
        None
    } else if users[0].user_id == Some(user_id) {
        Some(users[0].branch_id)
    } else {
        home_branch_by_id(users.drop_first(), user_id)
    }
}

/// The users of `rows`, as plain values.
pub open spec fn user_views(rows: Seq<User>) -> Seq<UserView> {
    rows.map_values(|row: User| row@)
}

/// What a lookup that wants one row answers.
pub open spec fn one_row<T>(found: Option<T>) -> Result<T, StorageFault> {
    match found {
        Some(value) => Ok(value),
        None => Err(StorageFault::RowNotFound),
    }
}

/// Whether a city was found and is not `city`.
pub open spec fn differs(found: Option<Seq<char>>, city: Seq<char>) -> bool {
    found matches Some(other) && other != city
}

/// A branch appended to the table is found only under an id that no
/// earlier branch has.
pub proof fn lemma_city_of_push(branches: Seq<BranchView>, added: BranchView, branch_id: i32)
    ensures
        city_of(branches.push(added), branch_id) == if city_of(branches, branch_id) is Some {
            city_of(branches, branch_id)
        } else if added.branch_id == Some(branch_id) {
            Some(added.city)
        } else {
            None
        },
    decreases branches.len(),
{
    if branches.len() == 0 {
        assert(branches.push(added).drop_first() =~= branches);
    } else {
        assert(branches.push(added).drop_first() =~= branches.drop_first().push(added));
        lemma_city_of_push(branches.drop_first(), added, branch_id);
    }
}

/// The characters of a text that may be absent.
pub open spec fn text_of(text: Option<&str>) -> Option<Seq<char>> {
    match text {
        Some(present) => Some(present@),
        None => None,
    }
}

/// `user` with each given field put in place of the old one.
pub open spec fn patched(
    user: UserView,
    passwordhash: Option<Seq<char>>,
    role: Option<Seq<char>>,
    branch_id: Option<i32>,
) -> UserView {
    UserView {
        user_id: user.user_id,
        username: user.username,
        passwordhash: match passwordhash {
            Some(new) => new,
            None => user.passwordhash,
        },
        role: match role {
            Some(new) => new,
            None => user.role,
        },
        branch_id: match branch_id {
            Some(new) => new,
            None => user.branch_id,
        },
    }
}

/// `users` with every user called `username` patched.
pub open spec fn patch_named(
    users: Seq<UserView>,
    username: Seq<char>,
    passwordhash: Option<Seq<char>>,
    role: Option<Seq<char>>,
    branch_id: Option<i32>,
) -> Seq<UserView> {
    users.map_values(
        |user: UserView|
            if user.username == username {
                patched(user, passwordhash, role, branch_id)
            } else {
                user
            },
    )
}

/// Patching the users of one name changes nobody's name: the first user of
/// that name is the same row as before, patched.
pub proof fn lemma_patch_named_first(
    users: Seq<UserView>,
    username: Seq<char>,
    passwordhash: Option<Seq<char>>,
    role: Option<Seq<char>>,
    branch_id: Option<i32>,
)
    ensures
        user_named(patch_named(users, username, passwordhash, role, branch_id), username)
            == match user_named(users, username) {
            Some(user) => Some(patched(user, passwordhash, role, branch_id)),
            None => None,
        },
    decreases users.len(),
{
    let after = patch_named(users, username, passwordhash, role, branch_id);
    if users.len() > 0 {
        assert(after.drop_first() =~= patch_named(
            users.drop_first(),
            username,
            passwordhash,
            role,
            branch_id,
        ));
        lemma_patch_named_first(users.drop_first(), username, passwordhash, role, branch_id);
    }
}

/// Whether an assignment is of `employee_id` to `branch_id`.
pub open spec fn is_assignment_of(row: BranchEmployee, employee_id: i32, branch_id: i32) -> bool {
    row.employee_id == employee_id && row.branch_id == branch_id
}

/// Whether an assignment passes the given filters: each filter that is
/// present must be met.
pub open spec fn passes(row: BranchEmployee, branch_id: Option<i32>, employee_id: Option<i32>)
    -> bool {
    &&& branch_id matches Some(wanted) ==> row.branch_id == wanted
    &&& employee_id matches Some(wanted) ==> row.employee_id == wanted
}

/// What the storage holds, as plain values.
pub struct StorageView {
    pub branches: Seq<BranchView>,
    pub users: Seq<UserView>,
    pub assignments: Seq<BranchEmployee>,
    /// The last identifier handed out to a branch, 0 before the first.
    pub last_branch_id: i32,
    /// The last identifier handed out to a user, 0 before the first.
    pub last_user_id: i32,
    /// The last identifier handed out to an assignment, 0 before the first.
    pub last_assignment_id: i32,
}

impl StorageView {
    /// Whether `employee_id` is assigned to a branch whose city is not
    /// `city`.
    pub open spec fn has_conflict(self, employee_id: i32, city: Seq<char>) -> bool {
        exists|i: int|
            0 <= i < self.assignments.len() && (#[trigger] self.assignments[i]).employee_id
                == employee_id && differs(
                city_of(self.branches, self.assignments[i].branch_id),
                city,
            )
    }

    /// Every assignment is to a branch that exists, and all the assignments
    /// of one employee are to branches in one city.
    pub open spec fn coherent(self) -> bool {
        &&& forall|i: int|
            0 <= i < self.assignments.len() ==> city_of(
                self.branches,
                (#[trigger] self.assignments[i]).branch_id,
            ) is Some
        &&& forall|i: int, j: int|
            0 <= i < self.assignments.len() && 0 <= j < self.assignments.len() && (
            #[trigger] self.assignments[i]).employee_id == (
            #[trigger] self.assignments[j]).employee_id ==> city_of(
                self.branches,
                self.assignments[i].branch_id,
            ) == city_of(self.branches, self.assignments[j].branch_id)
    }
}

/// A branch appended to the table changes the city of no branch that an
/// assignment is to, so the storage stays coherent.
pub proof fn lemma_new_branch_keeps_coherence(before: StorageView, after: StorageView, added: BranchView)
    requires
        before.coherent(),
        after.branches == before.branches.push(added),
        after.assignments == before.assignments,
    ensures
        after.coherent(),
{
    assert forall|i: int| 0 <= i < after.assignments.len() implies city_of(
        after.branches,
        (#[trigger] after.assignments[i]).branch_id,
    ) == city_of(before.branches, before.assignments[i].branch_id) by {
        lemma_city_of_push(before.branches, added, before.assignments[i].branch_id);
    }
}

/// An assignment appended for an employee who has none in another city
/// than the target branch's keeps the storage coherent.
pub proof fn lemma_new_assignment_keeps_coherence(
    before: StorageView,
    after: StorageView,
    added: BranchEmployee,
)
    requires
        before.coherent(),
        city_of(before.branches, added.branch_id) is Some,
        !before.has_conflict(added.employee_id, city_of(before.branches, added.branch_id)->0),
        after.branches == before.branches,
        after.assignments == before.assignments.push(added),
    ensures
        after.coherent(),
{
    let city = city_of(before.branches, added.branch_id)->0;
    assert forall|i: int| 0 <= i < before.assignments.len() && (
    #[trigger] before.assignments[i]).employee_id == added.employee_id implies city_of(
        before.branches,
        before.assignments[i].branch_id,
    ) == Some(city) by {
        assert(!differs(city_of(before.branches, before.assignments[i].branch_id), city));
    }
    assert forall|i: int| 0 <= i < after.assignments.len() implies (#[trigger] after.assignments[i]
        == if i < before.assignments.len() {
        before.assignments[i]
    } else {
        added
    }) by {}
}

/// Removing assignments keeps the storage coherent.
pub proof fn lemma_fewer_assignments_keep_coherence(
    before: StorageView,
    after: StorageView,
    keep: spec_fn(BranchEmployee) -> bool,
)
    requires
        before.coherent(),
        after.branches == before.branches,
        after.assignments == before.assignments.filter(keep),
    ensures
        after.coherent(),
{
    assert forall|k: int| 0 <= k < after.assignments.len() implies exists|m: int|
        0 <= m < before.assignments.len() && before.assignments[m]
            == #[trigger] after.assignments[k] by {
        assert(before.assignments.filter(keep).contains(after.assignments[k]));
        before.assignments.lemma_filter_contains_rev(keep, after.assignments[k]);
    }
    assert forall|k: int| 0 <= k < after.assignments.len() implies city_of(
        after.branches,
        (#[trigger] after.assignments[k]).branch_id,
    ) is Some by {
        let m = choose|m: int|
            0 <= m < before.assignments.len() && before.assignments[m] == after.assignments[k];
        assert(city_of(before.branches, before.assignments[m].branch_id) is Some);
    }
    assert forall|k: int, l: int|
        0 <= k < after.assignments.len() && 0 <= l < after.assignments.len() && (
        #[trigger] after.assignments[k]).employee_id == (
        #[trigger] after.assignments[l]).employee_id implies city_of(
        after.branches,
        after.assignments[k].branch_id,
    ) == city_of(after.branches, after.assignments[l].branch_id) by {
        let m = choose|m: int|
            0 <= m < before.assignments.len() && before.assignments[m] == after.assignments[k];
        let n = choose|n: int|
            0 <= n < before.assignments.len() && before.assignments[n] == after.assignments[l];
        assert(before.assignments[m].employee_id == before.assignments[n].employee_id);
    }
}

/// Branches, users and assignments, kept in memory.
pub struct MemoryStorage {
    branches: Vec<Branch>,
    users: Vec<User>,
    assignments: Vec<BranchEmployee>,
    last_branch_id: i32,
    last_user_id: i32,
    last_assignment_id: i32,
}

impl View for MemoryStorage {
    type V = StorageView;

    closed spec fn view(&self) -> StorageView {
        StorageView {
            branches: self.branches@.map_values(|b: Branch| b@),
            users: user_views(self.users@),
            assignments: self.assignments@,
            last_branch_id: self.last_branch_id,
            last_user_id: self.last_user_id,
            last_assignment_id: self.last_assignment_id,
        }
    }
}

impl MemoryStorage {
    /// Whether the storage holds what the consistency rule maintains.
    pub open spec fn wf(&self) -> bool {
        self@.coherent()
    }

    /// Storage that holds nothing and numbers its rows from 1.
    pub fn new() -> (storage: MemoryStorage)
        ensures
            storage.wf(),
            storage@ == (StorageView {
                branches: Seq::empty(),
                users: Seq::empty(),
                assignments: Seq::empty(),
                last_branch_id: 0,
                last_user_id: 0,
                last_assignment_id: 0,
            }),
    {
        MemoryStorage::numbering_after(0, 0, 0)
    }

    /// Storage that holds nothing and whose tables have handed out the
    /// given ids already: the first branch gets the id after
    /// `last_branch_id`, and so the first user and the first assignment.
    pub fn numbering_after(last_branch_id: i32, last_user_id: i32, last_assignment_id: i32) -> (storage:
        MemoryStorage)
        ensures
            storage.wf(),
            storage@ == (StorageView {
                branches: Seq::empty(),
                users: Seq::empty(),
                assignments: Seq::empty(),
                last_branch_id,
                last_user_id,
                last_assignment_id,
            }),
    {
        let storage = MemoryStorage {
            branches: Vec::new(),
            users: Vec::new(),
            assignments: Vec::new(),
            last_branch_id,
            last_user_id,
            last_assignment_id,
        };
        assert(storage@.branches =~= Seq::<BranchView>::empty());
        assert(storage@.users =~= Seq::<UserView>::empty());
        assert(storage@.assignments =~= Seq::<BranchEmployee>::empty());
        storage
    }

    /// How many branches there are.
    pub fn branch_count(&self) -> (count: usize)
        ensures
            count == self@.branches.len(),
    {
        self.branches.len()
    }

    /// How many users there are.
    pub fn user_count(&self) -> (count: usize)
        ensures
            count == self@.users.len(),
    {
        self.users.len()
    }

    /// How many assignments there are.
    pub fn assignment_count(&self) -> (count: usize)
        ensures
            count == self@.assignments.len(),
    {
        self.assignments.len()
    }

    /// The city of the branch `branch_id`.
    pub fn get_city(&self, branch_id: i32) -> (city: Result<String, StorageFault>)
        ensures
            match city {
                Ok(name) => city_of(self@.branches, branch_id) == Some(name@),
                Err(fault) => fault == StorageFault::RowNotFound && city_of(
                    self@.branches,
                    branch_id,
                ) is None,
            },
    {
        let ghost all = self@.branches;
        let mut i: usize = 0;
        assert(all.skip(0) =~= all);
        while i < self.branches.len()
            invariant
                all == self@.branches,
                i <= self.branches.len(),
                city_of(all, branch_id) == city_of(all.skip(i as int), branch_id),
            decreases self.branches.len() - i,
        {
            assert(all.skip(i as int).drop_first() =~= all.skip(i + 1));
            assert(all.skip(i as int)[0] == self.branches@[i as int]@);
            let row = &self.branches[i];
            match row.branch_id {
                Some(id) => {
                    if id == branch_id {
                        return Ok(row.city.clone());
                    }
                },
                None => {},
            }
            i += 1;
        }
        Err(StorageFault::RowNotFound)
    }

    /// The home branch of the user called `username`.
    pub fn get_branch_id_by_username(&self, username: &str) -> (branch: Result<i32, StorageFault>)
        ensures
            branch == one_row(home_branch_by_name(self@.users, username@)),
    {
        let ghost all = self@.users;
        let mut i: usize = 0;
        assert(all.skip(0) =~= all);
        while i < self.users.len()
            invariant
                all == self@.users,
                i <= self.users.len(),
                user_named(all, username@) == user_named(all.skip(i as int), username@),
            decreases self.users.len() - i,
        {
            assert(all.skip(i as int).drop_first() =~= all.skip(i + 1));
            assert(all.skip(i as int)[0] == self.users@[i as int]@);
            let row = &self.users[i];
            if same_text(row.username.as_str(), username) {
                return Ok(row.branch_id);
            }
            i += 1;
        }
        Err(StorageFault::RowNotFound)
    }

    /// The home branch of the user with the id `user_id`.
    pub fn get_branch_id(&self, user_id: i32) -> (branch: Result<i32, StorageFault>)
        ensures
            branch == one_row(home_branch_by_id(self@.users, user_id)),
    {
        let ghost all = self@.users;
        let mut i: usize = 0;
        assert(all.skip(0) =~= all);
        while i < self.users.len()
            invariant
                all == self@.users,
                i <= self.users.len(),
                home_branch_by_id(all, user_id) == home_branch_by_id(all.skip(i as int), user_id),
            decreases self.users.len() - i,
        {
            assert(all.skip(i as int).drop_first() =~= all.skip(i + 1));
            assert(all.skip(i as int)[0] == self.users@[i as int]@);
            let row = &self.users[i];
            match row.user_id {
                Some(id) => {
                    if id == user_id {
                        return Ok(row.branch_id);
                    }
                },
                None => {},
            }
            i += 1;
        }
        Err(StorageFault::RowNotFound)
    }

    /// The first user called `username`.
    pub fn get_user(&self, username: &str) -> (user: Result<User, StorageFault>)
        ensures
            match user {
                Ok(found) => user_named(self@.users, username@) == Some(found@),
                Err(fault) => fault == StorageFault::RowNotFound && user_named(
                    self@.users,
                    username@,
                ) is None,
            },
    {
        let ghost all = self@.users;
        let mut i: usize = 0;
        assert(all.skip(0) =~= all);
        while i < self.users.len()
            invariant
                all == self@.users,
                i <= self.users.len(),
                user_named(all, username@) == user_named(all.skip(i as int), username@),
            decreases self.users.len() - i,
        {
            assert(all.skip(i as int).drop_first() =~= all.skip(i + 1));
            assert(all.skip(i as int)[0] == self.users@[i as int]@);
            let row = &self.users[i];
            if same_text(row.username.as_str(), username) {
                return Ok(row.duplicate());
            }
            i += 1;
        }
        Err(StorageFault::RowNotFound)
    }

    /// The users whose home branch is `branch_id`, in the order in which
    /// they were added.
    pub fn users_of_branch(&self, branch_id: i32) -> (found: Vec<User>)
        ensures
            user_views(found@) == self@.users.filter(
                |user: UserView| user.branch_id == branch_id,
            ),
    {
        let ghost all = self@.users;
        let ghost wanted = |user: UserView| user.branch_id == branch_id;
        let mut found: Vec<User> = Vec::new();
        let mut i: usize = 0;
        proof {
            reveal(Seq::filter);
            assert(all.take(0) =~= Seq::<UserView>::empty());
            assert(user_views(found@) =~= Seq::<UserView>::empty());
        }
        while i < self.users.len()
            invariant
                all == self@.users,
                wanted == |user: UserView| user.branch_id == branch_id,
                i <= self.users.len(),
                user_views(found@) == all.take(i as int).filter(wanted),
            decreases self.users.len() - i,
        {
            let row = &self.users[i];
            proof {
                reveal(Seq::filter);
                assert(all.take(i + 1).drop_last() =~= all.take(i as int));
                assert(all.take(i + 1).last() == row@);
            }
            if row.branch_id == branch_id {
                let ghost before = found@;
                found.push(row.duplicate());
                assert(user_views(found@) =~= user_views(before).push(row@));
            }
            i += 1;
        }
        assert(all.take(i as int) =~= all);
        found
    }

    /// Whether `employee_id` is assigned to a branch in a city other than
    /// `city`.
    pub fn exists_conflicting_assignment(&self, employee_id: i32, city: &str) -> (conflict: bool)
        ensures
            conflict == self@.has_conflict(employee_id, city@),
    {
        let mut i: usize = 0;
        while i < self.assignments.len()
            invariant
                i <= self.assignments.len(),
                forall|k: int|
                    0 <= k < i ==> !((#[trigger] self@.assignments[k]).employee_id == employee_id
                        && differs(city_of(self@.branches, self@.assignments[k].branch_id), city@)),
            decreases self.assignments.len() - i,
        {
            let row = self.assignments[i];
            if row.employee_id == employee_id {
                match self.get_city(row.branch_id) {
                    Ok(other) => {
                        if !same_text(other.as_str(), city) {
                            assert(self@.assignments[i as int].employee_id == employee_id);
                            return true;
                        }
                    },
                    Err(_) => {},
                }
            }
            i += 1;
        }
        false
    }

    /// The assignments that pass the given filters, in the order in which
    /// they were made.
    pub fn select_assignments(&self, branch_id: Option<i32>, employee_id: Option<i32>) -> (found:
        Vec<BranchEmployee>)
        ensures
            found@ == self@.assignments.filter(
                |row: BranchEmployee| passes(row, branch_id, employee_id),
            ),
    {
        let ghost all = self@.assignments;
        let ghost wanted = |row: BranchEmployee| passes(row, branch_id, employee_id);
        let mut found: Vec<BranchEmployee> = Vec::new();
        let mut i: usize = 0;
        proof {
            reveal(Seq::filter);
            assert(all.take(0) =~= Seq::<BranchEmployee>::empty());
        }
        while i < self.assignments.len()
            invariant
                all == self@.assignments,
                wanted == |row: BranchEmployee| passes(row, branch_id, employee_id),
                i <= self.assignments.len(),
                found@ == all.take(i as int).filter(wanted),
            decreases self.assignments.len() - i,
        {
            let row = self.assignments[i];
            proof {
                reveal(Seq::filter);
                assert(all.take(i + 1).drop_last() =~= all.take(i as int));
                assert(all.take(i + 1).last() == row);
            }
            let branch_ok = match branch_id {
                Some(wanted_branch) => row.branch_id == wanted_branch,
                None => true,
            };
            let employee_ok = match employee_id {
                Some(wanted_employee) => row.employee_id == wanted_employee,
                None => true,
            };
            if branch_ok && employee_ok {
                found.push(row);
            }
            i += 1;
        }
        assert(all.take(i as int) =~= all);
        found
    }
}

impl MemoryStorage {
    /// Adds a user without asking the guard, as registration and the first
    /// administrator of a new branch need it. The user gets the next id.
    pub fn register_user(&mut self, user: User) -> (res: Result<User, StorageFault>)
        requires
            old(self).wf(),
        ensures
            final(self).wf(),
            match res {
                Ok(stored) => {
                    &&& old(self)@.last_user_id < i32::MAX
                    &&& stored@ == (UserView {
                        user_id: Some((old(self)@.last_user_id + 1) as i32),
                        ..user@
                    })
                    &&& final(self)@ == (StorageView {
                        users: old(self)@.users.push(stored@),
                        last_user_id: (old(self)@.last_user_id + 1) as i32,
                        ..old(self)@
                    })
                },
                Err(fault) => {
                    &&& fault == StorageFault::OutOfIds
                    &&& old(self)@.last_user_id == i32::MAX
                    &&& final(self)@ == old(self)@
                },
            },
    {
        if self.last_user_id == i32::MAX {
            return Err(StorageFault::OutOfIds);
        }
        let id: i32 = self.last_user_id + 1;
        let stored = User {
            user_id: Some(id),
            username: user.username,
            passwordhash: user.passwordhash,
            role: user.role,
            branch_id: user.branch_id,
        };
        let copy = stored.duplicate();
        self.users.push(stored);
        self.last_user_id = id;
        assert(self@.users =~= old(self)@.users.push(copy@));
        Ok(copy)
    }

    /// Adds a branch under the next id. Creating a branch calls this; the
    /// branch's first administrator is added next.
    pub(crate) fn insert_branch(&mut self, branch: Branch) -> (res: Result<Branch, StorageFault>)
        requires
            old(self).wf(),
        ensures
            final(self).wf(),
            match res {
                Ok(stored) => {
                    &&& old(self)@.last_branch_id < i32::MAX
                    &&& stored@ == (BranchView {
                        branch_id: Some((old(self)@.last_branch_id + 1) as i32),
                        ..branch@
                    })
                    &&& final(self)@ == (StorageView {
                        branches: old(self)@.branches.push(stored@),
                        last_branch_id: (old(self)@.last_branch_id + 1) as i32,
                        ..old(self)@
                    })
                },
                Err(fault) => {
                    &&& fault == StorageFault::OutOfIds
                    &&& old(self)@.last_branch_id == i32::MAX
                    &&& final(self)@ == old(self)@
                },
            },
    {
        if self.last_branch_id == i32::MAX {
            return Err(StorageFault::OutOfIds);
        }
        let id: i32 = self.last_branch_id + 1;
        let stored = Branch {
            branch_id: Some(id),
            address: branch.address,
            phone_number: branch.phone_number,
            postal_code: branch.postal_code,
            employee_count: branch.employee_count,
            city: branch.city,
        };
        let copy = stored.duplicate();
        self.branches.push(stored);
        self.last_branch_id = id;
        assert(self@.branches =~= old(self)@.branches.push(copy@));
        proof {
            lemma_new_branch_keeps_coherence(old(self)@, self@, copy@);
        }
        Ok(copy)
    }

    /// Adds the assignment of `employee_id` to `branch_id` under the next
    /// id. Only the consistency rule calls this, after its check.
    pub(crate) fn insert_assignment(&mut self, employee_id: i32, branch_id: i32) -> (res: Result<
        BranchEmployee,
        StorageFault,
    >)
        requires
            old(self).wf(),
            city_of(old(self)@.branches, branch_id) is Some,
            !old(self)@.has_conflict(employee_id, city_of(old(self)@.branches, branch_id)->0),
        ensures
            final(self).wf(),
            match res {
                Ok(row) => {
                    &&& old(self)@.last_assignment_id < i32::MAX
                    &&& row == (BranchEmployee {
                        branch_employee_id: Some((old(self)@.last_assignment_id + 1) as i32),
                        employee_id,
                        branch_id,
                    })
                    &&& final(self)@ == (StorageView {
                        assignments: old(self)@.assignments.push(row),
                        last_assignment_id: (old(self)@.last_assignment_id + 1) as i32,
                        ..old(self)@
                    })
                },
                Err(fault) => {
                    &&& fault == StorageFault::OutOfIds
                    &&& old(self)@.last_assignment_id == i32::MAX
                    &&& final(self)@ == old(self)@
                },
            },
    {
        if self.last_assignment_id == i32::MAX {
            return Err(StorageFault::OutOfIds);
        }
        let id: i32 = self.last_assignment_id + 1;
        let row = BranchEmployee { branch_employee_id: Some(id), employee_id, branch_id };
        self.assignments.push(row);
        self.last_assignment_id = id;
        proof {
            lemma_new_assignment_keeps_coherence(old(self)@, self@, row);
        }
        Ok(row)
    }

    /// Removes every assignment of `employee_id` to `branch_id`.
    pub fn remove_assignments(&mut self, employee_id: i32, branch_id: i32)
        requires
            old(self).wf(),
        ensures
            final(self).wf(),
            final(self)@ == (StorageView {
                assignments: old(self)@.assignments.filter(
                    |row: BranchEmployee| !is_assignment_of(row, employee_id, branch_id),
                ),
                ..old(self)@
            }),
    {
        let ghost all = self@.assignments;
        let ghost keep = |row: BranchEmployee| !is_assignment_of(row, employee_id, branch_id);
        let mut kept: Vec<BranchEmployee> = Vec::new();
        let mut i: usize = 0;
        proof {
            reveal(Seq::filter);
            assert(all.take(0) =~= Seq::<BranchEmployee>::empty());
        }
        while i < self.assignments.len()
            invariant
                self@ == old(self)@,
                all == self@.assignments,
                keep == |row: BranchEmployee| !is_assignment_of(row, employee_id, branch_id),
                i <= self.assignments.len(),
                kept@ == all.take(i as int).filter(keep),
            decreases self.assignments.len() - i,
        {
            let row = self.assignments[i];
            proof {
                reveal(Seq::filter);
                assert(all.take(i + 1).drop_last() =~= all.take(i as int));
                assert(all.take(i + 1).last() == row);
            }
            if !(row.employee_id == employee_id && row.branch_id == branch_id) {
                kept.push(row);
            }
            i += 1;
        }
        assert(all.take(i as int) =~= all);
        self.assignments = kept;
        proof {
            lemma_fewer_assignments_keep_coherence(old(self)@, self@, keep);
        }
    }

    /// Puts each given field in place of the old one in every user called
    /// `username`. Only a guarded operation calls this, after the guard.
    pub(crate) fn patch_users(
        &mut self,
        username: &str,
        passwordhash: Option<&str>,
        role: Option<&str>,
        branch_id: Option<i32>,
    )
        requires
            old(self).wf(),
        ensures
            final(self).wf(),
            final(self)@ == (StorageView {
                users: patch_named(
                    old(self)@.users,
                    username@,
                    text_of(passwordhash),
                    text_of(role),
                    branch_id,
                ),
                ..old(self)@
            }),
    {
        let ghost all = self@.users;
        let ghost goal = patch_named(all, username@, text_of(passwordhash), text_of(role), branch_id);
        let mut updated: Vec<User> = Vec::new();
        let mut i: usize = 0;
        while i < self.users.len()
            invariant
                self@ == old(self)@,
                all == self@.users,
                goal == patch_named(all, username@, text_of(passwordhash), text_of(role), branch_id),
                i <= self.users.len(),
                updated@.len() == i,
                forall|k: int| 0 <= k < i ==> (#[trigger] updated@[k])@ == goal[k],
            decreases self.users.len() - i,
        {
            let row = &self.users[i];
            assert(all[i as int] == row@);
            if same_text(row.username.as_str(), username) {
                let changed = User {
                    user_id: row.user_id,
                    username: row.username.clone(),
                    passwordhash: match passwordhash {
                        Some(new) => new.to_owned(),
                        None => row.passwordhash.clone(),
                    },
                    role: match role {
                        Some(new) => new.to_owned(),
                        None => row.role.clone(),
                    },
                    branch_id: match branch_id {
                        Some(new) => new,
                        None => row.branch_id,
                    },
                };
                updated.push(changed);
            } else {
                updated.push(row.duplicate());
            }
            i += 1;
        }
        self.users = updated;
        assert(self@.users =~= goal);
    }

    /// Removes every user called `username`. Only a guarded operation calls
    /// this, after the guard.
    pub(crate) fn remove_users(&mut self, username: &str)
        requires
            old(self).wf(),
        ensures
            final(self).wf(),
            final(self)@ == (StorageView {
                users: old(self)@.users.filter(|user: UserView| user.username != username@),
                ..old(self)@
            }),
    {
        let ghost all = self@.users;
        let ghost keep = |user: UserView| user.username != username@;
        let mut kept: Vec<User> = Vec::new();
        let mut i: usize = 0;
        proof {
            reveal(Seq::filter);
            assert(all.take(0) =~= Seq::<UserView>::empty());
            assert(user_views(kept@) =~= Seq::<UserView>::empty());
        }
        while i < self.users.len()
            invariant
                self@ == old(self)@,
                all == self@.users,
                keep == |user: UserView| user.username != username@,
                i <= self.users.len(),
                user_views(kept@) == all.take(i as int).filter(keep),
            decreases self.users.len() - i,
        {
            let row = &self.users[i];
            proof {
                reveal(Seq::filter);
                assert(all.take(i + 1).drop_last() =~= all.take(i as int));
                assert(all.take(i + 1).last() == row@);
            }
            if !same_text(row.username.as_str(), username) {
                let ghost before = kept@;
                kept.push(row.duplicate());
                assert(user_views(kept@) =~= user_views(before).push(row@));
            }
            i += 1;
        }
        assert(all.take(i as int) =~= all);
        self.users = kept;
    }
}

} // verus!
