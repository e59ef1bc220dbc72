//! Branch-scoped access control for a multi-branch service business.
//!
//! Three rules gate what reaches storage:
//!
//! - [`session`] resolves who is acting, from the API key that a session
//!   carries, and [`login`] hands out such keys;
//! - [`guard`] lets an administrator change only the users of the
//!   administrator's own branch;
//! - [`assignment`] keeps an employee from working at branches in different
//!   cities at the same time.
//!
//! Each rule is a decision on plain values, so that it can be asked
//! whatever storage lies behind it. [`storage`] is storage kept in memory,
//! with the guarded operations of [`guard`] and [`assignment`] on it.
//! [`models`] holds the records, [`error`] the errors, and [`decimal`] and
//! [`text`] what the rest needs of numbers and text.

pub mod assignment;
pub mod decimal;
pub mod error;
pub mod guard;
pub mod login;
pub mod models;
pub mod session;
pub mod storage;
pub mod text;
