//! The branch authorization guard: an administrator manages only the users
//! whose home branch is the administrator's own.
//!
//! [`admin_branch_check`] and [`authorize`] decide on the outcome of the
//! lookups, whoever made them. The operations on users below ask the guard
//! about storage kept in memory and change it only when the guard allows.
//! Creating a branch adds the branch's first administrator and is the one
//! change to users that the guard is not asked about.

use vstd::prelude::*;
use crate::error::DbError;
use crate::models::{Branch, BranchView, User, UserView};
use crate::storage::{
    home_branch_by_name, lemma_patch_named_first, one_row, patch_named, text_of, user_named,
    user_views, MemoryStorage, StorageFault, StorageView,
};

verus! {

/// What the guard answers for an administrator of `admin_branch_id` once the
/// target's home branch has been looked up.
pub open spec fn branch_check<E>(admin_branch_id: i32, target_branch: Result<i32, E>) -> Result<
    (),
    DbError<E>,
> {
    match target_branch {
        Err(cause) => Err(DbError::Sqlx(cause)),
        Ok(branch_id) => if branch_id == admin_branch_id {
            Ok(())
        } else {
            Err(DbError::NotPermitted)
        },
    }
}

/// Decides whether an administrator whose home branch is `admin_branch_id`
/// may change a user, given the outcome of looking up that user's home
/// branch by username.
///
/// A failed lookup is handed on with its cause, a different branch is
/// refused, and the same branch is allowed.
pub fn admin_branch_check<E>(admin_branch_id: i32, target_branch: Result<i32, E>) -> (res: Result<
    (),
    DbError<E>,
>)
    ensures
        res == branch_check(admin_branch_id, target_branch),
        res is Ok <==> target_branch == Ok::<i32, E>(admin_branch_id),
{
    match target_branch {
        Err(cause) => Err(DbError::Sqlx(cause)),
        Ok(branch_id) => {
            if admin_branch_id != branch_id {
                Err(DbError::NotPermitted)
            } else {
                Ok(())
            }
        },
    }
}

/// What the guard answers once both home branches have been looked up: the
/// acting administrator's, by user id, and the target's, by username. A
/// failed lookup is handed on, the administrator's first.
pub open spec fn authorization<E>(admin_branch: Result<i32, E>, target_branch: Result<i32, E>)
    -> Result<(), DbError<E>> {
    match admin_branch {
        Err(cause) => Err(DbError::Sqlx(cause)),
        Ok(admin_branch_id) => branch_check(admin_branch_id, target_branch),
    }
}

/// Decides whether an administrator may change a user, given the outcome
/// of looking up the home branch of each. The two lookups are independent
/// reads; neither result is taken on trust from the caller.
pub fn authorize<E>(admin_branch: Result<i32, E>, target_branch: Result<i32, E>) -> (res: Result<
    (),
    DbError<E>,
>)
    ensures
        res == authorization(admin_branch, target_branch),
{
    match admin_branch {
        Err(cause) => Err(DbError::Sqlx(cause)),
        Ok(admin_branch_id) => admin_branch_check(admin_branch_id, target_branch),
    }
}

/// The guard lets an administrator through exactly if both home branches
/// are known and are the same branch; known and different branches are
/// answered with `NotPermitted`, and nothing else is.
pub proof fn lemma_authorized_iff_same_branch<E>(
    admin_branch: Result<i32, E>,
    target_branch: Result<i32, E>,
)
    ensures
        authorization(admin_branch, target_branch) is Ok <==> (admin_branch is Ok
            && target_branch is Ok && admin_branch->Ok_0 == target_branch->Ok_0),
        authorization(admin_branch, target_branch) == Err::<(), DbError<E>>(DbError::NotPermitted)
            <==> (admin_branch is Ok && target_branch is Ok && admin_branch->Ok_0
            != target_branch->Ok_0),
{
}

/// What the guard answers on `storage` to an administrator of
/// `admin_branch_id` who wants to change the user called `username`.
pub open spec fn guard_answer(storage: StorageView, admin_branch_id: i32, username: Seq<char>)
    -> Result<(), DbError<StorageFault>> {
    branch_check(admin_branch_id, one_row(home_branch_by_name(storage.users, username)))
}

/// The first administrator of the branch `branch_id`, before storage has
/// numbered the record: the user `admin` with the role `admin`.
pub open spec fn bootstrap_admin(branch_id: i32, passwordhash: Seq<char>) -> UserView {
    UserView {
        user_id: None,
        username: "admin"@,
        passwordhash,
        role: "admin"@,
        branch_id,
    }
}

/// Creates a branch and, with it, the branch's first administrator.
///
/// The administrator is added without asking the guard: there is nobody
/// yet who could be asked. `admin_passwordhash` is the stored form of the
/// administrator's first password. Where the users' ids have run out, the
/// branch stays and the call fails.
pub fn create_branch(storage: &mut MemoryStorage, branch: Branch, admin_passwordhash: String) -> (res:
    Result<Branch, DbError<StorageFault>>)
    requires
        old(storage).wf(),
    ensures
        final(storage).wf(),
        old(storage)@.last_branch_id == i32::MAX ==> {
            &&& res == Err::<Branch, DbError<StorageFault>>(DbError::Sqlx(StorageFault::OutOfIds))
            &&& final(storage)@ == old(storage)@
        },
        old(storage)@.last_branch_id < i32::MAX ==> {
            let branch_id = (old(storage)@.last_branch_id + 1) as i32;
            let stored = BranchView { branch_id: Some(branch_id), ..branch@ };
            let with_branch = StorageView {
                branches: old(storage)@.branches.push(stored),
                last_branch_id: branch_id,
                ..old(storage)@
            };
            if old(storage)@.last_user_id == i32::MAX {
                &&& res == Err::<Branch, DbError<StorageFault>>(
                    DbError::Sqlx(StorageFault::OutOfIds),
                )
                &&& final(storage)@ == with_branch
            } else {
                let user_id = (old(storage)@.last_user_id + 1) as i32;
                &&& res is Ok
                &&& res->Ok_0@ == stored
                &&& final(storage)@ == (StorageView {
                    users: old(storage)@.users.push(
                        UserView {
                            user_id: Some(user_id),
                            ..bootstrap_admin(branch_id, admin_passwordhash@)
                        },
                    ),
                    last_user_id: user_id,
                    ..with_branch
                })
            }
        },
{
    let stored = match storage.insert_branch(branch) {
        Ok(stored) => stored,
        Err(fault) => {
            return Err(DbError::Sqlx(fault));
        },
    };
    let branch_id: i32 = stored.branch_id.unwrap();
    let admin = User {
        user_id: None,
        username: "admin".to_owned(),
        passwordhash: admin_passwordhash,
        role: "admin".to_owned(),
        branch_id,
    };
    match storage.register_user(admin) {
        Ok(_) => Ok(stored),
        Err(fault) => Err(DbError::Sqlx(fault)),
    }
}

/// Adds a user for an administrator of `admin_branch_id`.
///
/// The guard is asked first, about the name of the user to add: the first
/// user of that name must exist and belong to the administrator's branch.
/// A refused or failed attempt leaves the storage as it was.
pub fn create_user(storage: &mut MemoryStorage, admin_branch_id: i32, user: User) -> (res: Result<
    User,
    DbError<StorageFault>,
>)
    requires
        old(storage).wf(),
    ensures
        final(storage).wf(),
        match guard_answer(old(storage)@, admin_branch_id, user.username@) {
            Err(refusal) => {
                &&& res == Err::<User, DbError<StorageFault>>(refusal)
                &&& final(storage)@ == old(storage)@
            },
            Ok(_) => if old(storage)@.last_user_id == i32::MAX {
                &&& res == Err::<User, DbError<StorageFault>>(
                    DbError::Sqlx(StorageFault::OutOfIds),
                )
                &&& final(storage)@ == old(storage)@
            } else {
                let user_id = (old(storage)@.last_user_id + 1) as i32;
                &&& res is Ok
                &&& res->Ok_0@ == (UserView { user_id: Some(user_id), ..user@ })
                &&& final(storage)@ == (StorageView {
                    users: old(storage)@.users.push(res->Ok_0@),
                    last_user_id: user_id,
                    ..old(storage)@
                })
            },
        },
{
    let target = storage.get_branch_id_by_username(user.username.as_str());
    match admin_branch_check(admin_branch_id, target) {
        Err(refusal) => {
            return Err(refusal);
        },
        Ok(_) => {},
    }
    match storage.register_user(user) {
        Ok(stored) => Ok(stored),
        Err(fault) => Err(DbError::Sqlx(fault)),
    }
}

/// Changes the password hash, the role and the home branch of the users
/// called `username`, each as far as it is given, for an administrator of
/// `admin_branch_id`, and gives the first of them as it is afterwards.
///
/// The guard is asked once, before the change and about the storage as it
/// is then. A change that moves the user to another branch therefore
/// completes, although the guard would refuse the same administrator
/// afterwards. A refused or failed attempt leaves the storage as it was.
pub fn update_user(
    storage: &mut MemoryStorage,
    admin_branch_id: i32,
    username: &str,
    new_passwordhash: Option<&str>,
    role: Option<&str>,
    branch_id: Option<i32>,
) -> (res: Result<User, DbError<StorageFault>>)
    requires
        old(storage).wf(),
    ensures
        final(storage).wf(),
        match guard_answer(old(storage)@, admin_branch_id, username@) {
            Err(refusal) => {
                &&& res == Err::<User, DbError<StorageFault>>(refusal)
                &&& final(storage)@ == old(storage)@
            },
            Ok(_) => {
                &&& res is Ok
                &&& Some(res->Ok_0@) == user_named(final(storage)@.users, username@)
                &&& final(storage)@ == (StorageView {
                    users: patch_named(
                        old(storage)@.users,
                        username@,
                        text_of(new_passwordhash),
                        text_of(role),
                        branch_id,
                    ),
                    ..old(storage)@
                })
            },
        },
{
    let target = storage.get_branch_id_by_username(username);
    match admin_branch_check(admin_branch_id, target) {
        Err(refusal) => {
            return Err(refusal);
        },
        Ok(_) => {},
    }
    storage.patch_users(username, new_passwordhash, role, branch_id);
    proof {
        lemma_patch_named_first(
            old(storage)@.users,
            username@,
            text_of(new_passwordhash),
            text_of(role),
            branch_id,
        );
    }
    match storage.get_user(username) {
        Ok(first) => Ok(first),
        Err(fault) => Err(DbError::Sqlx(fault)),
    }
}

/// Removes the users called `username` for an administrator of
/// `admin_branch_id`.
///
/// The guard is asked first. A refused or failed attempt leaves the
/// storage as it was.
pub fn delete_user(storage: &mut MemoryStorage, username: &str, admin_branch_id: i32) -> (res:
    Result<(), DbError<StorageFault>>)
    requires
        old(storage).wf(),
    ensures
        final(storage).wf(),
        res == guard_answer(old(storage)@, admin_branch_id, username@),
        res is Err ==> final(storage)@ == old(storage)@,
        res is Ok ==> final(storage)@ == (StorageView {
            users: old(storage)@.users.filter(|user: UserView| user.username != username@),
            ..old(storage)@
        }),
{
    let target = storage.get_branch_id_by_username(username);
    match admin_branch_check(admin_branch_id, target) {
        Err(refusal) => {
            return Err(refusal);
        },
        Ok(_) => {},
    }
    storage.remove_users(username);
    Ok(())
}

/// The users whose home branch is `admin_branch_id`, in the order in which
/// they were added.
pub fn get_users(storage: &MemoryStorage, admin_branch_id: i32) -> (res: Result<
    Vec<User>,
    DbError<StorageFault>,
>)
    ensures
        res is Ok,
        user_views(res->Ok_0@) == storage@.users.filter(
            |user: UserView| user.branch_id == admin_branch_id,
        ),
{
    Ok(storage.users_of_branch(admin_branch_id))
}

/// The guard on storage lets an administrator change a user exactly if the
/// first user of that name exists and has the administrator's home branch,
/// and answers `NotPermitted` exactly if that user has another.
pub proof fn lemma_guard_answer(storage: StorageView, admin_branch_id: i32, username: Seq<char>)
    ensures
        guard_answer(storage, admin_branch_id, username) is Ok <==> home_branch_by_name(
            storage.users,
            username,
        ) == Some(admin_branch_id),
        guard_answer(storage, admin_branch_id, username) == Err::<(), DbError<StorageFault>>(
            DbError::NotPermitted,
        ) <==> (home_branch_by_name(storage.users, username) is Some && home_branch_by_name(
            storage.users,
            username,
        ) != Some(admin_branch_id)),
{
}

/// A change that the guard allowed stands, although it moved the user out
/// of the administrator's branch: afterwards the user's home branch is the
/// new one, and the guard refuses the same administrator from then on.
pub proof fn lemma_allowed_change_stands(
    storage: StorageView,
    admin_branch_id: i32,
    username: Seq<char>,
    passwordhash: Option<Seq<char>>,
    role: Option<Seq<char>>,
    new_branch_id: i32,
)
    requires
        guard_answer(storage, admin_branch_id, username) is Ok,
        new_branch_id != admin_branch_id,
    ensures
        ({
            let after = StorageView {
                users: patch_named(storage.users, username, passwordhash, role, Some(new_branch_id)),
                ..storage
            };
            &&& home_branch_by_name(after.users, username) == Some(new_branch_id)
            &&& guard_answer(after, admin_branch_id, username) == Err::<
                (),
                DbError<StorageFault>,
            >(DbError::NotPermitted)
        }),
{
    lemma_patch_named_first(storage.users, username, passwordhash, role, Some(new_branch_id));
}

} // verus!
