//! The records of the business: users, branches, the assignment of
//! employees to branches, and the catalogue of services and spare parts.
//!
//! An identifier is `None` on a record that storage has not yet numbered.

use vstd::prelude::*;

verus! {

/// A person who can log in. Every change made in a user's name is checked
/// against the user's home branch.
#[derive(Debug, Clone)]
pub struct User {
    pub user_id: Option<i32>,
    pub username: String,
    pub passwordhash: String,
    pub role: String,
    pub branch_id: i32,
}

/// What a [`User`] holds, as plain values.
pub struct UserView {
    pub user_id: Option<i32>,
    pub username: Seq<char>,
    pub passwordhash: Seq<char>,
    pub role: Seq<char>,
    pub branch_id: i32,
}

impl View for User {
    type V = UserView;

    open spec fn view(&self) -> UserView {
        UserView {
            user_id: self.user_id,
            username: self.username@,
            passwordhash: self.passwordhash@,
            role: self.role@,
            branch_id: self.branch_id,
        }
    }
}

impl User {
    /// A second record with the same contents.
    pub fn duplicate(&self) -> (copy: User)
        ensures
            copy@ == self@,
    {
        User {
            user_id: self.user_id,
            username: self.username.clone(),
            passwordhash: self.passwordhash.clone(),
            role: self.role.clone(),
            branch_id: self.branch_id,
        }
    }
}

/// A place of business. Its city never changes once the branch exists.
#[derive(Debug, Clone)]
pub struct Branch {
    pub branch_id: Option<i32>,
    pub address: String,
    pub phone_number: String,
    pub postal_code: String,
    pub employee_count: i32,
    pub city: String,
}

/// What a [`Branch`] holds, as plain values.
pub struct BranchView {
    pub branch_id: Option<i32>,
    pub address: Seq<char>,
    pub phone_number: Seq<char>,
    pub postal_code: Seq<char>,
    pub employee_count: i32,
    pub city: Seq<char>,
}

impl View for Branch {
    type V = BranchView;

    open spec fn view(&self) -> BranchView {
        BranchView {
            branch_id: self.branch_id,
            address: self.address@,
            phone_number: self.phone_number@,
            postal_code: self.postal_code@,
            employee_count: self.employee_count,
            city: self.city@,
        }
    }
}

impl Branch {
    /// A second record with the same contents.
    pub fn duplicate(&self) -> (copy: Branch)
        ensures
            copy@ == self@,
    {
        Branch {
            branch_id: self.branch_id,
            address: self.address.clone(),
            phone_number: self.phone_number.clone(),
            postal_code: self.postal_code.clone(),
            employee_count: self.employee_count,
            city: self.city.clone(),
        }
    }
}

/// One employee working at one branch.
#[derive(Debug, Clone, Copy, PartialEq, Eq, Structural)]
pub struct BranchEmployee {
    pub branch_employee_id: Option<i32>,
    pub employee_id: i32,
    pub branch_id: i32,
}

/// A kind of work that the business offers.
#[derive(Debug, Clone)]
pub struct Service {
    pub service_id: Option<i32>,
    pub service_name: String,
    pub description: String,
}

/// A kind of spare part that the business stocks.
#[derive(Debug, Clone)]
pub struct SparePart {
    pub part_id: Option<i32>,
    pub part_name: String,
    pub description: String,
}

/// One service carried out under one order.
#[derive(Debug, Clone, Copy, PartialEq, Eq, Structural)]
pub struct OrderService {
    pub order_service_id: Option<i32>,
    pub order_id: i32,
    pub service_id: i32,
}

/// Spare parts used for one service of one order.
#[derive(Debug, Clone, Copy, PartialEq, Eq, Structural)]
pub struct OrderServicePart {
    pub order_service_part_id: Option<i32>,
    pub part_id: i32,
    pub order_service_id: i32,
    pub quantity: i32,
}

} // verus!
