//! Cart lines, orders, order lines and reports.

use crate::calendar::{Date, Timestamp};
use crate::discount::DiscountType;
use crate::money::Amount;
use vstd::prelude::*;

verus! {

/// A line of a cart: one product that a user is about to buy in a store.
#[derive(Clone, Copy, Debug)]
pub struct SalesCart {
    pub id: i32,
    pub user_id: i32,
    pub store_id: i32,
    pub product_id: i32,
    pub base_price: Amount,
    pub qty: i32,
    pub discount_type: DiscountType,
    pub discount_value: i32,
    pub discount_amount: Amount,
    pub sale_price: Amount,
    pub created_at: Timestamp,
    pub updated_at: Timestamp,
}

/// A line of a cart with the name and the unit of its product.
#[derive(Debug)]
pub struct SalesCartResponse {
    pub id: i32,
    pub user_id: i32,
    pub store_id: i32,
    pub product_id: i32,
    pub product_name: String,
    pub unit_name: Option<String>,
    pub base_price: Amount,
    pub qty: i32,
    pub discount_type: DiscountType,
    pub discount_value: i32,
    pub discount_amount: Amount,
    pub sale_price: Amount,
    pub created_at: Timestamp,
    pub updated_at: Timestamp,
}

/// The values of a line that is to be added to a cart. What is left out is
/// filled in: a fixed discount of nothing, and the amounts that follow from
/// the discount rule.
#[derive(Clone, Copy, Debug)]
pub struct NewSalesCart {
    pub store_id: i32,
    pub product_id: i32,
    pub base_price: Amount,
    pub qty: i32,
    pub discount_type: Option<DiscountType>,
    pub discount_value: Option<i32>,
    pub discount_amount: Option<Amount>,
    pub sale_price: Option<Amount>,
}

/// The fields of a line that are to change.
#[derive(Clone, Copy, Debug)]
pub struct UpdateSalesCart {
    pub base_price: Option<Amount>,
    pub qty: Option<i32>,
    pub discount_type: Option<DiscountType>,
    pub discount_value: Option<i32>,
}

/// The header of an order.
#[derive(Debug)]
pub struct SalesOrder {
    pub id: i32,
    pub order_number: String,
    pub user_id: i32,
    pub store_id: i32,
    pub date: Date,
    pub grand_total: Amount,
    pub payment_cash: Amount,
    pub payment_non_cash: Amount,
    pub receivable: Amount,
    pub created_at: Timestamp,
    pub customer_id: Option<i32>,
}

/// A line of an order: what a cart line held when the order was made.
#[derive(Clone, Copy, Debug)]
pub struct SalesOrderDetail {
    pub id: i32,
    pub order_id: i32,
    pub product_id: i32,
    pub qty: i32,
    pub base_price: Amount,
    pub discount_type: DiscountType,
    pub discount_value: Amount,
    pub discount_amount: Amount,
    pub sale_price: Amount,
    pub total_price: Amount,
}

/// A request to turn the cart of a store into an order.
#[derive(Debug)]
pub struct CreateOrderRequest {
    pub order_number: String,
    pub store_id: i32,
    /// The date of the order; today where it is left out.
    pub date: Option<Date>,
    pub payment_cash: Amount,
    pub payment_non_cash: Amount,
    pub customer_id: Option<i32>,
}

/// An order that was made, with its lines.
#[derive(Debug)]
pub struct OrderResponse {
    pub order: SalesOrder,
    pub details: Vec<SalesOrderDetail>,
}

/// An order with what is shown of its user and store, and its lines.
#[derive(Debug)]
pub struct DetailedOrderResponse {
    pub order: DetailedSalesOrder,
    pub details: Vec<DetailedSalesOrderDetail>,
}

/// The header of an order with the initials of its user and store.
#[derive(Debug)]
pub struct DetailedSalesOrder {
    pub id: i32,
    pub order_number: String,
    pub user_id: i32,
    pub user_initial: String,
    pub store_id: i32,
    pub store_initial: String,
    pub date: Date,
    pub grand_total: Amount,
    pub payment_cash: Amount,
    pub payment_non_cash: Amount,
    pub receivable: Amount,
    pub created_at: Timestamp,
    pub customer_id: Option<i32>,
}

/// A line of an order with the present name and SKU of its product.
#[derive(Debug)]
pub struct DetailedSalesOrderDetail {
    pub id: i32,
    pub order_id: i32,
    pub product_id: i32,
    pub product_name: String,
    pub sku: String,
    pub qty: i32,
    pub base_price: Amount,
    pub discount_type: DiscountType,
    pub discount_value: Amount,
    pub discount_amount: Amount,
    pub sale_price: Amount,
    pub total_price: Amount,
}

/// What a report is asked for: the orders dated from `start_date` to
/// `end_date`, both included, of one store, or of every store where
/// `store_id` is 0.
#[derive(Clone, Copy, Debug)]
pub struct SalesReportQuery {
    pub start_date: Date,
    pub end_date: Date,
    pub store_id: i32,
}

/// An order in a report, with its lines.
#[derive(Debug)]
pub struct SalesReportOrder {
    pub id: i32,
    pub order_number: String,
    pub user_id: i32,
    pub user_initial: String,
    pub store_id: i32,
    pub store_initial: String,
    pub date: Date,
    pub grand_total: Amount,
    pub payment_cash: Amount,
    pub payment_non_cash: Amount,
    pub receivable: Amount,
    pub created_at: Timestamp,
    pub customer_id: Option<i32>,
    pub items: Vec<DetailedSalesOrderDetail>,
}

/// What was sold of one product over the orders of a report.
#[derive(Debug)]
pub struct SkuSummaryItem {
    pub product_id: i32,
    pub product_name: String,
    pub sku: String,
    pub total_qty: i64,
    pub total_price: Amount,
}

/// The totals of a report.
#[derive(Clone, Copy, Debug)]
pub struct SalesSummary {
    pub total_payment_cash: Amount,
    pub total_payment_non_cash: Amount,
    pub total_receivable: Amount,
    pub total_orders: i32,
}

/// A sales report.
#[derive(Debug)]
pub struct SalesReport {
    pub orders: Vec<SalesReportOrder>,
    pub sku_summary: Vec<SkuSummaryItem>,
    pub summary: SalesSummary,
}

impl Clone for SalesOrder {
    fn clone(&self) -> (r: Self)
        ensures
            r == *self,
    {
        SalesOrder {
            id: self.id,
            order_number: self.order_number.clone(),
            user_id: self.user_id,
            store_id: self.store_id,
            date: self.date,
            grand_total: self.grand_total,
            payment_cash: self.payment_cash,
            payment_non_cash: self.payment_non_cash,
            receivable: self.receivable,
            created_at: self.created_at,
            customer_id: self.customer_id,
        }
    }
}

} // verus!
