//! The rows of the tables and the values that requests and replies carry.

pub mod auth;
pub mod product;
pub mod response;
pub mod sales;
pub mod user;
