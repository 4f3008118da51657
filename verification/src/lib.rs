//! Transactional core of a retail point of sale: cart lines and their
//! discounts, the conversion of a cart into an order, order lookup scoped to
//! the owning organization, and sales reports over the stored orders.
//!
//! - [`money`] holds decimal amounts and states what `rust_decimal` makes of
//!   them; [`discount`] and [`totals`] are the rules on prices and sums.
//! - [`database`] holds the tables and what is always true of them;
//!   [`services`] are the operations on them, each with a contract that says
//!   what it returns and what it leaves behind.
//! - [`services::order_transaction`] and [`services::db_service`] decide the
//!   steps of an order and of a connection where the tables live in a
//!   database server and the caller sends the statements.
//! - [`calendar`], [`arrange`], [`errors`], [`models`] and [`handlers`] hold
//!   dates, the ordering of rows, the failures, and the values that are
//!   stored and exchanged.

pub mod arrange;
pub mod calendar;
pub mod database;
pub mod discount;
pub mod errors;
pub mod handlers;
pub mod models;
pub mod money;
pub mod services;
pub mod totals;
