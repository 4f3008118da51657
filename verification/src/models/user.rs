//! Users, stores and the organization that owns both.

use vstd::prelude::*;

verus! {

/// A user. `company_id` is the organization that the user belongs to.
#[derive(Debug)]
pub struct User {
    pub id: i32,
    pub email: String,
    pub company_id: i32,
    pub full_name: String,
    pub initial: String,
    pub company_name: Option<String>,
}

/// A store of an organization.
#[derive(Debug)]
pub struct Store {
    pub id: i32,
    pub name: String,
    pub company_id: i32,
    pub initial: String,
}

/// A user with the stores that the user works in.
#[derive(Debug)]
pub struct UserWithStores {
    pub id: i32,
    pub email: String,
    pub company_id: i32,
    pub company_name: Option<String>,
    pub full_name: String,
    pub initial: String,
    pub stores: Vec<Store>,
}

/// A signed-in account, joined with the user that it stands for.
#[derive(Debug)]
pub struct UserInfo {
    pub email: String,
    pub name: Option<String>,
    pub picture: Option<String>,
    pub sub: String,
    pub id: i32,
    pub full_name: String,
    pub company_id: i32,
}

/// The values of a user that is yet to be stored.
#[derive(Debug)]
pub struct NewUser {
    pub email: String,
    pub company_id: i32,
    pub full_name: String,
    pub initial: String,
}

/// The assignment of a user to a store.
#[derive(Debug, Clone, Copy)]
pub struct NewUserStore {
    pub user_id: i32,
    pub store_id: i32,
}

} // verus!
