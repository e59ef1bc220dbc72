//! The errors that a storage-backed operation of this crate can end in.

use vstd::prelude::*;

verus! {

/// Why a storage-backed operation did not complete.
///
/// `E` is the cause that the storage engine reported; this crate carries it
/// through untouched and never looks inside.
#[derive(Debug, PartialEq, Eq)]
pub enum DbError<E> {
    /// The storage engine failed; the cause is kept as it was reported.
    Sqlx(E),
    /// The acting administrator's home branch is not the target's home branch.
    NotPermitted,
    /// The employee already works at a branch in another city.
    BadInput,
}

impl<E> DbError<E> {
    /// The HTTP status that answers a request which ended in this error:
    /// 403 for a refusal by the guard, 400 for a conflict of cities, 500
    /// for a failure of storage.
    pub open spec fn status(self) -> u16 {
        match self {
            DbError::Sqlx(_) => 500,
            DbError::NotPermitted => 403,
            DbError::BadInput => 400,
        }
    }

    /// The HTTP status that answers a request which ended in this error.
    pub fn http_status(&self) -> (code: u16)
        ensures
            code == self.status(),
    {
        match self {
            DbError::Sqlx(_) => 500,
            DbError::NotPermitted => 403,
            DbError::BadInput => 400,
        }
    }
}

} // verus!
