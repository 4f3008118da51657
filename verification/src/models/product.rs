//! The product catalog as far as carts, orders and reports read it, and the
//! paging of listings.

use crate::calendar::Timestamp;
use crate::money::Amount;
use vstd::prelude::*;

verus! {

/// A product of the catalog.
#[derive(Debug)]
pub struct Product {
    pub id: i32,
    pub sku: String,
    pub name: String,
    pub purchase_price: Amount,
    pub sale_price: Amount,
    pub company_id: i32,
    pub unit_name: Option<String>,
    pub deleted_at: Option<Timestamp>,
    pub created_at: Timestamp,
    pub updated_at: Timestamp,
    pub category_id: Option<i32>,
}

/// A category of products.
#[derive(Debug)]
pub struct ProductCategory {
    pub id: i32,
    pub name: String,
    pub description: Option<String>,
    pub parent_id: Option<i32>,
    pub created_at: Timestamp,
    pub updated_at: Timestamp,
}

/// The values of a product that is yet to be stored.
#[derive(Debug)]
pub struct NewProduct {
    pub sku: String,
    pub name: String,
    pub purchase_price: Amount,
    pub sale_price: Amount,
    pub unit_name: Option<String>,
    pub category_id: Option<i32>,
}

/// The filter and the page of a listing of categories.
#[derive(Debug)]
pub struct ProductCategoryQueryParams {
    pub search: Option<String>,
    pub page: Option<i32>,
    pub size: Option<i32>,
}

/// The filter and the page of a listing of products.
#[derive(Debug)]
pub struct ProductQueryParams {
    pub search: Option<String>,
    pub page: Option<i32>,
    pub size: Option<i32>,
}

/// One page of a listing, with the size of the whole.
#[derive(Debug)]
pub struct PaginatedResponse<T> {
    pub page: i32,
    pub size: i32,
    pub total: i64,
    pub total_pages: i64,
    pub items: Vec<T>,
}

/// The number of pages that `total` items fill at `size` items a page: the
/// quotient rounded up, and none where a page holds nothing. The division
/// rounds toward zero, as it does on machine integers.
pub open spec fn spec_total_pages(total: int, size: int) -> int {
    if size > 0 {
        let n = total + size - 1;
        if n >= 0 {
            n / size
        } else {
            -((-n) / size)
        }
    } else {
        0
    }
}

impl<T> PaginatedResponse<T> {
    /// The page `page` of a listing of `total` items, `size` to a page.
    pub fn new(page: i32, size: i32, total: i64, items: Vec<T>) -> (r: Self)
        requires
            size > 0 ==> total + size <= i64::MAX,
        ensures
            r.page == page,
            r.size == size,
            r.total == total,
            r.items == items,
            r.total_pages == spec_total_pages(total as int, size as int),
            size > 0 && total >= 0 ==> (r.total_pages - 1) * size < total <= r.total_pages * size,
    {
        let total_pages: i64 = if size > 0 {
            (total + size as i64 - 1) / size as i64
        } else {
            0
        };
        proof {
            if size > 0 && total >= 0 {
                let n = total + size - 1;
                let s = size as int;
                assert(n == s * (n / s) + n % s) by (nonlinear_arith)
                    requires
                        s > 0,
                ;
                assert(0 <= n % s < s) by (nonlinear_arith)
                    requires
                        s > 0,
                ;
                assert((n / s - 1) * s == s * (n / s) - s) by (nonlinear_arith);
                assert((n / s) * s == s * (n / s)) by (nonlinear_arith);
            }
        }
        PaginatedResponse { page, size, total, total_pages, items }
    }
}

} // verus!
