//! The transaction that turns a cart into an order, step by step.
//!
//! Where the tables live in a database server, the statements of the
//! transaction are sent by the caller. What is decided between two
//! statements is decided here: [`OrderTransaction::step`] takes what the
//! last statement brought and says what to do next. An order is committed
//! only after its header, all its lines and the clearing of the cart went
//! through; whatever fails before that rolls the transaction back.

use crate::calendar::Date;
use crate::discount::DiscountType;
use crate::errors::ServiceError;
use crate::models::sales::{
    CreateOrderRequest, OrderResponse, SalesCart, SalesOrder, SalesOrderDetail,
};
use crate::money::Amount;
use crate::services::orders::{
    all_priced, order_totals, spec_grand_total, spec_line_totals, spec_order_date,
    totals_computable,
};
use crate::totals::spec_receivable;
use vstd::prelude::*;

verus! {

/// How far the transaction has come.
#[derive(Clone, Copy, Debug, PartialEq, Eq, Structural)]
pub enum Phase {
    /// The transaction is being opened.
    Start,
    /// The lines of the cart are being read.
    Loading,
    /// The header of the order is being stored.
    InsertingOrder,
    /// A line of the order is being stored.
    InsertingDetails,
    /// The cart is being cleared.
    Clearing,
    /// The transaction is being committed.
    Committing,
    /// The transaction is being rolled back.
    RollingBack,
    /// The transaction is over.
    Finished,
}

/// The header of an order that is to be stored. The database gives it its id
/// and the instant of its creation.
#[derive(Debug)]
pub struct OrderDraft {
    pub order_number: String,
    pub user_id: i32,
    pub store_id: i32,
    pub date: Date,
    pub grand_total: Amount,
    pub payment_cash: Amount,
    pub payment_non_cash: Amount,
    pub receivable: Amount,
    pub customer_id: Option<i32>,
}

/// A line of an order that is to be stored. The database gives it its id.
#[derive(Clone, Copy, Debug)]
pub struct DetailDraft {
    pub order_id: i32,
    pub product_id: i32,
    pub qty: i32,
    pub base_price: Amount,
    pub discount_type: DiscountType,
    pub discount_value: Amount,
    pub discount_amount: Amount,
    pub sale_price: Amount,
    pub total_price: Amount,
}

/// What the caller is to do next.
#[derive(Debug)]
pub enum OrderAction {
    /// Read the lines of the cart of this user in this store, the newest
    /// first.
    LoadCart { user_id: i32, store_id: i32 },
    /// Store the header of the order.
    InsertOrder(OrderDraft),
    /// Store a line of the order.
    InsertDetail(DetailDraft),
    /// Delete the lines of the cart of this user in this store.
    ClearCart { user_id: i32, store_id: i32 },
    /// Commit the transaction.
    Commit,
    /// Roll the transaction back.
    Rollback,
    /// Nothing more: this is how the transaction ended.
    Finish(Result<OrderResponse, ServiceError>),
}

/// What the last statement brought.
#[derive(Debug)]
pub enum OrderEvent {
    /// The transaction was opened.
    Started,
    /// The lines of the cart were read.
    CartLoaded(Vec<SalesCart>),
    /// The header was stored as this row.
    OrderInserted(SalesOrder),
    /// A line was stored as this row.
    DetailInserted(SalesOrderDetail),
    /// The cart was cleared.
    CartCleared,
    /// The transaction was committed.
    Committed,
    /// The transaction was rolled back.
    RolledBack,
    /// The statement failed, with this message of the database.
    Failed(String),
}

/// A transaction under way.
#[derive(Debug)]
pub struct OrderTransaction {
    pub phase: Phase,
    pub user_id: i32,
    pub request: CreateOrderRequest,
    /// The date that an order without a date is given.
    pub today: Date,
    /// The lines of the cart, once they were read.
    pub lines: Vec<SalesCart>,
    /// The total of each line.
    pub line_totals: Vec<Amount>,
    /// The header of the order, once it was stored.
    pub order: Option<SalesOrder>,
    /// The lines of the order that were stored so far.
    pub details: Vec<SalesOrderDetail>,
    /// Why the transaction is rolled back.
    pub error: Option<ServiceError>,
}

/// The header that is stored for a request over these lines.
pub open spec fn draft_fits(
    draft: OrderDraft,
    request: CreateOrderRequest,
    user_id: i32,
    today: Date,
    lines: Seq<SalesCart>,
) -> bool {
    &&& draft.order_number == request.order_number
    &&& draft.user_id == user_id
    &&& draft.store_id == request.store_id
    &&& draft.date == spec_order_date(request.date, today)
    &&& Some(draft.grand_total) == spec_grand_total(lines)
    &&& draft.payment_cash == request.payment_cash
    &&& draft.payment_non_cash == request.payment_non_cash
    &&& Some(draft.receivable) == spec_receivable(
        draft.grand_total,
        request.payment_cash,
        request.payment_non_cash,
    )
    &&& draft.customer_id == request.customer_id
}

/// The line of an order that is stored for a line of the cart.
pub open spec fn spec_detail_draft(
    line: SalesCart,
    order_id: i32,
    total_price: Amount,
) -> DetailDraft {
    DetailDraft {
        order_id,
        product_id: line.product_id,
        qty: line.qty,
        base_price: line.base_price,
        discount_type: line.discount_type,
        discount_value: Amount::spec_whole(line.discount_value as int),
        discount_amount: line.discount_amount,
        sale_price: line.sale_price,
        total_price,
    }
}

/// Whether the step gives the transaction up: it is rolled back, and will
/// end with an error.
pub open spec fn gives_up(after: OrderTransaction, action: OrderAction) -> bool {
    &&& after.phase is RollingBack
    &&& action is Rollback
    &&& after.error is Some
}

/// Whether the step gives the transaction up because the statement failed
/// with this message.
pub open spec fn gives_up_with(after: OrderTransaction, action: OrderAction, msg: String) -> bool {
    &&& gives_up(after, action)
    &&& after.error == Some(ServiceError::DatabaseError(msg))
}

/// Whether the request, the user and the date are the same in both.
pub open spec fn same_task(before: OrderTransaction, after: OrderTransaction) -> bool {
    &&& after.user_id == before.user_id
    &&& after.request == before.request
    &&& after.today == before.today
}

impl OrderTransaction {
    /// Whether the transaction holds what its phase needs: the lines and
    /// their totals once the cart was read, the header once it was stored,
    /// no more lines stored than the cart has, all of them once the cart is
    /// cleared, and the reason once it is rolled back.
    pub open spec fn wf(&self) -> bool {
        match self.phase {
            Phase::Start | Phase::Loading | Phase::Finished => true,
            Phase::InsertingOrder => self.has_lines(),
            Phase::InsertingDetails => self.has_lines() && self.order is Some && self.details@.len()
                < self.lines@.len(),
            Phase::Clearing | Phase::Committing => self.has_lines() && self.order is Some
                && self.details@.len() == self.lines@.len(),
            Phase::RollingBack => self.error is Some,
        }
    }

    /// Whether the cart was read and held a line, and the total of each line
    /// is known.
    pub open spec fn has_lines(&self) -> bool {
        &&& self.lines@.len() > 0
        &&& all_priced(self.lines@)
        &&& self.line_totals@ == spec_line_totals(self.lines@)
    }

    /// A transaction that is about to be opened.
    pub fn new(user_id: i32, request: CreateOrderRequest, today: Date) -> (r: OrderTransaction)
        ensures
            r.wf(),
            r.phase is Start,
            r.user_id == user_id,
            r.request == request,
            r.today == today,
    {
        OrderTransaction {
            phase: Phase::Start,
            user_id,
            request,
            today,
            lines: Vec::new(),
            line_totals: Vec::new(),
            order: None,
            details: Vec::new(),
            error: None,
        }
    }

    /// What a step from `before` on `event` leads to.
    ///
    /// A statement that fails, or an event that the phase does not expect,
    /// gives the transaction up while it is open and nothing is committed.
    /// The commit is asked for only when the cart was cleared, which is
    /// asked for only when the last line was stored. The transaction ends
    /// well only on the event that it was committed.
    pub open spec fn step_leads_to(
        before: OrderTransaction,
        event: OrderEvent,
        after: OrderTransaction,
        action: OrderAction,
    ) -> bool {
        match before.phase {
            Phase::Start => match event {
                OrderEvent::Started => {
                    &&& after.phase is Loading
                    &&& same_task(before, after)
                    &&& action == (OrderAction::LoadCart {
                        user_id: before.user_id,
                        store_id: before.request.store_id,
                    })
                },
                OrderEvent::Failed(msg) => after.phase is Finished && action
                    == OrderAction::Finish(Err(ServiceError::DatabaseError(msg))),
                _ => after.phase is Finished && action == OrderAction::Finish(
                    Err(ServiceError::InternalServerError),
                ),
            },
            Phase::Loading => match event {
                OrderEvent::CartLoaded(lines) => if lines@.len() == 0 {
                    &&& gives_up(after, action)
                    &&& after.error matches Some(ServiceError::ValidationError(msg))
                    &&& msg@ == "No items in cart"@
                } else if !totals_computable(
                    lines@,
                    before.request.payment_cash,
                    before.request.payment_non_cash,
                ) {
                    &&& gives_up(after, action)
                    &&& after.error matches Some(ServiceError::DatabaseError(_))
                } else {
                    &&& after.phase is InsertingOrder
                    &&& same_task(before, after)
                    &&& after.lines == lines
                    &&& after.details@.len() == 0
                    &&& action matches OrderAction::InsertOrder(draft)
                    &&& draft_fits(draft, before.request, before.user_id, before.today, lines@)
                },
                OrderEvent::Failed(msg) => gives_up_with(after, action, msg),
                _ => gives_up(after, action),
            },
            Phase::InsertingOrder => match event {
                OrderEvent::OrderInserted(order) => {
                    &&& after.phase is InsertingDetails
                    &&& same_task(before, after)
                    &&& after.lines == before.lines
                    &&& after.order == Some(order)
                    &&& after.details@.len() == 0
                    &&& action == OrderAction::InsertDetail(
                        spec_detail_draft(before.lines@[0], order.id, before.line_totals@[0]),
                    )
                },
                OrderEvent::Failed(msg) => gives_up_with(after, action, msg),
                _ => gives_up(after, action),
            },
            Phase::InsertingDetails => match event {
                OrderEvent::DetailInserted(detail) => {
                    let stored = before.details@.push(detail);
                    &&& same_task(before, after)
                    &&& after.lines == before.lines
                    &&& after.order == before.order
                    &&& after.details@ == stored
                    &&& if stored.len() < before.lines@.len() {
                        &&& after.phase is InsertingDetails
                        &&& action == OrderAction::InsertDetail(
                            spec_detail_draft(
                                before.lines@[stored.len() as int],
                                before.order->0.id,
                                before.line_totals@[stored.len() as int],
                            ),
                        )
                    } else {
                        &&& after.phase is Clearing
                        &&& action == (OrderAction::ClearCart {
                            user_id: before.user_id,
                            store_id: before.request.store_id,
                        })
                    }
                },
                OrderEvent::Failed(msg) => gives_up_with(after, action, msg),
                _ => gives_up(after, action),
            },
            Phase::Clearing => match event {
                OrderEvent::CartCleared => {
                    &&& after.phase is Committing
                    &&& same_task(before, after)
                    &&& after.lines == before.lines
                    &&& after.order == before.order
                    &&& after.details == before.details
                    &&& action is Commit
                },
                OrderEvent::Failed(msg) => gives_up_with(after, action, msg),
                _ => gives_up(after, action),
            },
            Phase::Committing => match event {
                OrderEvent::Committed => {
                    &&& after.phase is Finished
                    &&& action matches OrderAction::Finish(Ok(response))
                    &&& Some(response.order) == before.order
                    &&& response.details == before.details
                },
                OrderEvent::Failed(msg) => after.phase is Finished && action
                    == OrderAction::Finish(Err(ServiceError::DatabaseError(msg))),
                _ => after.phase is Finished && action == OrderAction::Finish(
                    Err(ServiceError::InternalServerError),
                ),
            },
            Phase::RollingBack => {
                &&& after.phase is Finished
                &&& action matches OrderAction::Finish(Err(e))
                &&& Some(e) == before.error
            },
            Phase::Finished => after.phase is Finished && action == OrderAction::Finish(
                Err(ServiceError::InternalServerError),
            ),
        }
    }

    /// Gives the transaction up for this reason.
    fn give_up(self, reason: ServiceError) -> (r: (OrderTransaction, OrderAction))
        ensures
            r.0.wf(),
            gives_up(r.0, r.1),
            r.0.error == Some(reason),
    {
        (
            OrderTransaction {
                phase: Phase::RollingBack,
                user_id: self.user_id,
                request: self.request,
                today: self.today,
                lines: self.lines,
                line_totals: self.line_totals,
                order: self.order,
                details: self.details,
                error: Some(reason),
            },
            OrderAction::Rollback,
        )
    }

    /// Ends the transaction with this error.
    fn end(self, reason: ServiceError) -> (r: (OrderTransaction, OrderAction))
        ensures
            r.0.wf(),
            r.0.phase is Finished,
            r.1 == OrderAction::Finish(Err(reason)),
    {
        (
            OrderTransaction {
                phase: Phase::Finished,
                user_id: self.user_id,
                request: self.request,
                today: self.today,
                lines: self.lines,
                line_totals: self.line_totals,
                order: None,
                details: Vec::new(),
                error: None,
            },
            OrderAction::Finish(Err(reason)),
        )
    }

    /// The line of the order that is stored for the line `k` of the cart.
    fn detail_draft(&self, k: usize, order_id: i32) -> (r: DetailDraft)
        requires
            k < self.lines@.len(),
            self.line_totals@.len() == self.lines@.len(),
        ensures
            r == spec_detail_draft(self.lines@[k as int], order_id, self.line_totals@[k as int]),
    {
        let line = self.lines[k];
        DetailDraft {
            order_id,
            product_id: line.product_id,
            qty: line.qty,
            base_price: line.base_price,
            discount_type: line.discount_type,
            discount_value: Amount::whole(line.discount_value as i64),
            discount_amount: line.discount_amount,
            sale_price: line.sale_price,
            total_price: self.line_totals[k],
        }
    }

    /// Takes what the last statement brought and says what to do next.
    ///
    /// A transaction that was not put together by [`OrderTransaction::new`]
    /// and by steps, and does not hold what its phase needs, is given up.
    pub fn step(self, event: OrderEvent) -> (r: (OrderTransaction, OrderAction))
        ensures
            self.wf() ==> r.0.wf() && OrderTransaction::step_leads_to(self, event, r.0, r.1),
    {
        match self.phase {
            Phase::Start => match event {
                OrderEvent::Started => {
                    let action = OrderAction::LoadCart {
                        user_id: self.user_id,
                        store_id: self.request.store_id,
                    };
                    (
                        OrderTransaction {
                            phase: Phase::Loading,
                            user_id: self.user_id,
                            request: self.request,
                            today: self.today,
                            lines: self.lines,
                            line_totals: self.line_totals,
                            order: self.order,
                            details: self.details,
                            error: self.error,
                        },
                        action,
                    )
                },
                OrderEvent::Failed(msg) => self.end(ServiceError::DatabaseError(msg)),
                _ => self.end(ServiceError::InternalServerError),
            },
            Phase::Loading => match event {
                OrderEvent::CartLoaded(lines) => {
                    if lines.len() == 0 {
                        return self.give_up(
                            ServiceError::ValidationError("No items in cart".to_owned()),
                        );
                    }
                    let totals = match order_totals(
                        &lines,
                        self.request.payment_cash,
                        self.request.payment_non_cash,
                    ) {
                        Some(totals) => totals,
                        None => {
                            return self.give_up(
                                ServiceError::DatabaseError("numeric field overflow".to_owned()),
                            );
                        },
                    };
                    let date = match self.request.date {
                        Some(date) => date,
                        None => self.today,
                    };
                    let draft = OrderDraft {
                        order_number: self.request.order_number.clone(),
                        user_id: self.user_id,
                        store_id: self.request.store_id,
                        date,
                        grand_total: totals.grand_total,
                        payment_cash: self.request.payment_cash,
                        payment_non_cash: self.request.payment_non_cash,
                        receivable: totals.receivable,
                        customer_id: self.request.customer_id,
                    };
                    (
                        OrderTransaction {
                            phase: Phase::InsertingOrder,
                            user_id: self.user_id,
                            request: self.request,
                            today: self.today,
                            lines,
                            line_totals: totals.line_totals,
                            order: None,
                            details: Vec::new(),
                            error: None,
                        },
                        OrderAction::InsertOrder(draft),
                    )
                },
                OrderEvent::Failed(msg) => self.give_up(ServiceError::DatabaseError(msg)),
                _ => self.give_up(ServiceError::InternalServerError),
            },
            Phase::InsertingOrder => match event {
                OrderEvent::OrderInserted(order) => {
                    if self.lines.len() == 0 || self.line_totals.len() != self.lines.len() {
                        return self.give_up(ServiceError::InternalServerError);
                    }
                    let draft = self.detail_draft(0, order.id);
                    (
                        OrderTransaction {
                            phase: Phase::InsertingDetails,
                            user_id: self.user_id,
                            request: self.request,
                            today: self.today,
                            lines: self.lines,
                            line_totals: self.line_totals,
                            order: Some(order),
                            details: Vec::new(),
                            error: None,
                        },
                        OrderAction::InsertDetail(draft),
                    )
                },
                OrderEvent::Failed(msg) => self.give_up(ServiceError::DatabaseError(msg)),
                _ => self.give_up(ServiceError::InternalServerError),
            },
            Phase::InsertingDetails => match event {
                OrderEvent::DetailInserted(detail) => {
                    if self.line_totals.len() != self.lines.len() {
                        return self.give_up(ServiceError::InternalServerError);
                    }
                    let order_id = match &self.order {
                        Some(order) => order.id,
                        None => {
                            return self.give_up(ServiceError::InternalServerError);
                        },
                    };
                    let mut details = self.details;
                    details.push(detail);
                    if details.len() < self.lines.len() {
                        let k = details.len();
                        let line = self.lines[k];
                        let draft = DetailDraft {
                            order_id,
                            product_id: line.product_id,
                            qty: line.qty,
                            base_price: line.base_price,
                            discount_type: line.discount_type,
                            discount_value: Amount::whole(line.discount_value as i64),
                            discount_amount: line.discount_amount,
                            sale_price: line.sale_price,
                            total_price: self.line_totals[k],
                        };
                        (
                            OrderTransaction {
                                phase: Phase::InsertingDetails,
                                user_id: self.user_id,
                                request: self.request,
                                today: self.today,
                                lines: self.lines,
                                line_totals: self.line_totals,
                                order: self.order,
                                details,
                                error: None,
                            },
                            OrderAction::InsertDetail(draft),
                        )
                    } else {
                        let action = OrderAction::ClearCart {
                            user_id: self.user_id,
                            store_id: self.request.store_id,
                        };
                        (
                            OrderTransaction {
                                phase: Phase::Clearing,
                                user_id: self.user_id,
                                request: self.request,
                                today: self.today,
                                lines: self.lines,
                                line_totals: self.line_totals,
                                order: self.order,
                                details,
                                error: None,
                            },
                            action,
                        )
                    }
                },
                OrderEvent::Failed(msg) => self.give_up(ServiceError::DatabaseError(msg)),
                _ => self.give_up(ServiceError::InternalServerError),
            },
            Phase::Clearing => match event {
                OrderEvent::CartCleared => (
                    OrderTransaction {
                        phase: Phase::Committing,
                        user_id: self.user_id,
                        request: self.request,
                        today: self.today,
                        lines: self.lines,
                        line_totals: self.line_totals,
                        order: self.order,
                        details: self.details,
                        error: None,
                    },
                    OrderAction::Commit,
                ),
                OrderEvent::Failed(msg) => self.give_up(ServiceError::DatabaseError(msg)),
                _ => self.give_up(ServiceError::InternalServerError),
            },
            Phase::Committing => match event {
                OrderEvent::Committed => {
                    match self.order {
                        Some(order) => (
                            OrderTransaction {
                                phase: Phase::Finished,
                                user_id: self.user_id,
                                request: self.request,
                                today: self.today,
                                lines: self.lines,
                                line_totals: self.line_totals,
                                order: None,
                                details: Vec::new(),
                                error: None,
                            },
                            OrderAction::Finish(Ok(OrderResponse { order, details: self.details })),
                        ),
                        None => self.end(ServiceError::InternalServerError),
                    }
                },
                OrderEvent::Failed(msg) => self.end(ServiceError::DatabaseError(msg)),
                _ => self.end(ServiceError::InternalServerError),
            },
            Phase::RollingBack => {
                match self.error {
                    Some(reason) => (
                        OrderTransaction {
                            phase: Phase::Finished,
                            user_id: self.user_id,
                            request: self.request,
                            today: self.today,
                            lines: self.lines,
                            line_totals: self.line_totals,
                            order: None,
                            details: Vec::new(),
                            error: None,
                        },
                        OrderAction::Finish(Err(reason)),
                    ),
                    None => self.end(ServiceError::InternalServerError),
                }
            },
            Phase::Finished => self.end(ServiceError::InternalServerError),
        }
    }

    /// A statement that fails while the transaction is open and not yet
    /// being committed has the transaction rolled back: nothing of the
    /// order is committed, and the error that ends the transaction is the
    /// failure of the database.
    pub proof fn lemma_failure_rolls_back(
        before: OrderTransaction,
        msg: String,
        after: OrderTransaction,
        action: OrderAction,
    )
        requires
            before.phase is Loading || before.phase is InsertingOrder
                || before.phase is InsertingDetails || before.phase is Clearing,
            OrderTransaction::step_leads_to(before, OrderEvent::Failed(msg), after, action),
        ensures
            action is Rollback,
            after.phase is RollingBack,
            after.error == Some(ServiceError::DatabaseError(msg)),
    {
    }

    /// The commit is asked for only after the cart was cleared, with the
    /// header of the order and a line for every line of the cart stored.
    pub proof fn lemma_commit_comes_last(
        before: OrderTransaction,
        event: OrderEvent,
        after: OrderTransaction,
        action: OrderAction,
    )
        requires
            before.wf(),
            OrderTransaction::step_leads_to(before, event, after, action),
            action is Commit,
        ensures
            before.phase is Clearing,
            event is CartCleared,
            before.order is Some,
            before.details@.len() == before.lines@.len(),
    {
    }

    /// The transaction ends well only when it was committed, and then with
    /// the header and the lines that were stored.
    pub proof fn lemma_success_was_committed(
        before: OrderTransaction,
        event: OrderEvent,
        after: OrderTransaction,
        action: OrderAction,
    )
        requires
            before.wf(),
            OrderTransaction::step_leads_to(before, event, after, action),
            action matches OrderAction::Finish(Ok(_)),
        ensures
            before.phase is Committing,
            event is Committed,
            action matches OrderAction::Finish(Ok(response)) && Some(response.order)
                == before.order && response.details == before.details,
    {
    }

    /// A cart without lines has the transaction rolled back before anything
    /// is written, as a validation error.
    pub proof fn lemma_empty_cart_writes_nothing(
        before: OrderTransaction,
        lines: Vec<SalesCart>,
        after: OrderTransaction,
        action: OrderAction,
    )
        requires
            before.phase is Loading,
            lines@.len() == 0,
            OrderTransaction::step_leads_to(before, OrderEvent::CartLoaded(lines), after, action),
        ensures
            action is Rollback,
            after.error matches Some(ServiceError::ValidationError(_)),
    {
    }
}

} // verus!
