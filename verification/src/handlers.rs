//! What the requests on carts and reports carry in their query.

use crate::calendar::Date;
use crate::models::sales::SalesReportQuery;
use vstd::prelude::*;

verus! {

/// The query of a request for the lines of a cart.
#[derive(Clone, Copy, Debug)]
pub struct GetCartQuery {
    /// The store whose cart is asked for.
    pub store_id: i32,
}

/// The query of a request to clear a cart.
#[derive(Clone, Copy, Debug)]
pub struct ClearCartQuery {
    /// The store whose cart is to be cleared.
    pub store_id: i32,
}

/// The query of a request for a sales report.
#[derive(Clone, Copy, Debug)]
pub struct GetSalesReportQuery {
    /// The first date of the report.
    pub start_date: Date,
    /// The last date of the report.
    pub end_date: Date,
    /// The store of the report, or 0 for every store.
    pub store_id: i32,
}

impl GetSalesReportQuery {
    /// What the report service is asked for.
    pub fn report_query(&self) -> (r: SalesReportQuery)
        ensures
            r.start_date == self.start_date,
            r.end_date == self.end_date,
            r.store_id == self.store_id,
    {
        SalesReportQuery {
            start_date: self.start_date,
            end_date: self.end_date,
            store_id: self.store_id,
        }
    }
}

} // verus!
