use pos_backend::arrange::{may_stand_before, order_of};
use pos_backend::calendar::Date;
use pos_backend::handlers::GetSalesReportQuery;
use pos_backend::models::product::PaginatedResponse;
use pos_backend::models::response::ApiResponse;

#[test]
fn pages_round_up() {
    assert_eq!(PaginatedResponse::new(1, 10, 25, vec![1, 2, 3]).total_pages, 3);
    assert_eq!(PaginatedResponse::new(1, 10, 30, Vec::<i32>::new()).total_pages, 3);
    assert_eq!(PaginatedResponse::new(1, 10, 31, Vec::<i32>::new()).total_pages, 4);
    assert_eq!(PaginatedResponse::new(1, 10, 1, Vec::<i32>::new()).total_pages, 1);
    assert_eq!(PaginatedResponse::new(1, 1, 7, Vec::<i32>::new()).total_pages, 7);
}

#[test]
fn pages_of_nothing_or_of_empty_pages() {
    assert_eq!(PaginatedResponse::new(1, 10, 0, Vec::<i32>::new()).total_pages, 0);
    assert_eq!(PaginatedResponse::new(1, 0, 25, Vec::<i32>::new()).total_pages, 0);
    assert_eq!(PaginatedResponse::new(1, -5, 25, Vec::<i32>::new()).total_pages, 0);
    assert_eq!(PaginatedResponse::new(1, 10, -25, Vec::<i32>::new()).total_pages, -1);
}

#[test]
fn page_keeps_what_it_is_given() {
    let p = PaginatedResponse::new(2, 10, 25, vec!["a", "b"]);
    assert_eq!(p.page, 2);
    assert_eq!(p.size, 10);
    assert_eq!(p.total, 25);
    assert_eq!(p.items, vec!["a", "b"]);
}

#[test]
fn envelopes() {
    let ok = ApiResponse::success(5);
    assert_eq!(ok.status, "success");
    assert_eq!(ok.message, "Operation completed successfully");
    assert_eq!(ok.data, Some(5));
    let failed = ApiResponse::<()>::error("Item not found");
    assert_eq!(failed.status, "error");
    assert_eq!(failed.message, "Item not found");
    assert_eq!(failed.data, None);
}

#[test]
fn dates_are_ordered_as_in_a_calendar() {
    let d = |year, month, day| Date { year, month, day };
    assert!(d(2025, 7, 9).on_or_after(&d(2025, 7, 9)));
    assert!(d(2025, 7, 10).on_or_after(&d(2025, 7, 9)));
    assert!(d(2025, 8, 1).on_or_after(&d(2025, 7, 31)));
    assert!(d(2026, 1, 1).on_or_after(&d(2025, 12, 31)));
    assert!(!d(2025, 12, 31).on_or_after(&d(2026, 1, 1)));
    assert!(d(-1, 12, 31).ordinal() < d(0, 1, 1).ordinal());
    assert!(d(2025, 7, 9).within(&d(2025, 7, 9), &d(2025, 7, 9)));
    assert!(!d(2025, 7, 8).within(&d(2025, 7, 9), &d(2025, 7, 31)));
    assert!(!d(2025, 8, 1).within(&d(2025, 7, 9), &d(2025, 7, 31)));
    assert_eq!(d(2025, 7, 9).ordinal(), (2025 * 16 + 7) * 32 + 9);
}

#[test]
fn larger_keys_come_first_and_equal_keys_keep_their_order() {
    let keys = vec![(1, 5), (3, 0), (1, 7), (3, 0), (2, -1), (1, 5)];
    assert_eq!(order_of(&keys), vec![1, 3, 4, 2, 0, 5]);
    assert_eq!(order_of(&Vec::new()), Vec::<usize>::new());
    assert_eq!(order_of(&vec![(i64::MIN, 0), (i64::MAX, 0)]), vec![1, 0]);
    assert!(may_stand_before((2, 0), (1, 9)));
    assert!(may_stand_before((1, 9), (1, 9)));
    assert!(!may_stand_before((1, 8), (1, 9)));
}

#[test]
fn report_query_of_a_request() {
    let q = GetSalesReportQuery {
        start_date: Date { year: 2025, month: 7, day: 1 },
        end_date: Date { year: 2025, month: 7, day: 31 },
        store_id: 0,
    };
    let r = q.report_query();
    assert_eq!(r.start_date, q.start_date);
    assert_eq!(r.end_date, q.end_date);
    assert_eq!(r.store_id, 0);
}
