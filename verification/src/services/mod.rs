//! The operations of the point of sale.

pub mod cart;
pub mod db_service;
pub mod error_handler;
pub mod order_transaction;
pub mod orders;
pub mod report;
