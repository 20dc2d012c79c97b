//! The handle surface: what a message asks of the engine, and the answer.
//!
//! A deposit in a token arrives as `Receive`, with the order as its payload;
//! a deposit in the native asset comes along with `CreateLimitOrder` itself.
//! A trigger pass asks the pool between its steps, so it is run by the
//! caller, step by step, and answered with `status_answer`.

use crate::book::{is_status_answer, status_answer, OrderBook, OrderBookError};
use crate::model::Call;
use crate::msg::{HandleAnswer, HandleMsg};
use vstd::prelude::*;

verus! {

/// What a message asks of the engine.
pub enum Request {
    Create { owner: String, is_bid: bool, price: u128, expected_amount: u128, deposit_amount: u128 },
    Cancel { owner: String },
    Trigger,
    /// A deposit that carries no payload: there is nothing to do.
    Idle,
    /// A deposit whose payload is no order.
    Malformed,
}

/// The request that a message stands for. `deposit` is what `sender` has
/// sent along in the native asset; `payload` is the message that a
/// `Receive` carries, where it carries one that can be read.
pub open spec fn routed(sender: String, deposit: u128, msg: HandleMsg, payload: Option<HandleMsg>)
    -> Request {
    match msg {
        HandleMsg::Receive { sender: _, from, amount, msg: carried } => match payload {
            Some(HandleMsg::CreateLimitOrder { is_bid, price, expected_amount }) => {
                if carried is Some {
                    Request::Create {
                        owner: from,
                        is_bid,
                        price,
                        expected_amount,
                        deposit_amount: amount,
                    }
                } else {
                    Request::Idle
                }
            },
            _ => if carried is Some {
                Request::Malformed
            } else {
                Request::Idle
            },
        },
        HandleMsg::CreateLimitOrder { is_bid, price, expected_amount } => Request::Create {
            owner: sender,
            is_bid,
            price,
            expected_amount,
            deposit_amount: deposit,
        },
        HandleMsg::CancelLimitOrder {  } => Request::Cancel { owner: sender },
        HandleMsg::TriggerLimitOrders {  } => Request::Trigger,
    }
}

/// Reads a message as a request to the engine.
pub fn route(sender: String, deposit: u128, msg: HandleMsg, payload: Option<HandleMsg>) -> (r:
    Request)
    ensures
        r == routed(sender, deposit, msg, payload),
{
    match msg {
        HandleMsg::Receive { sender: _, from, amount, msg: carried } => {
            if carried.is_none() {
                return Request::Idle;
            }
            match payload {
                Some(HandleMsg::CreateLimitOrder { is_bid, price, expected_amount }) => {
                    Request::Create {
                        owner: from,
                        is_bid,
                        price,
                        expected_amount,
                        deposit_amount: amount,
                    }
                },
                _ => Request::Malformed,
            }
        },
        HandleMsg::CreateLimitOrder { is_bid, price, expected_amount } => Request::Create {
            owner: sender,
            is_bid,
            price,
            expected_amount,
            deposit_amount: deposit,
        },
        HandleMsg::CancelLimitOrder {  } => Request::Cancel { owner: sender },
        HandleMsg::TriggerLimitOrders {  } => Request::Trigger,
    }
}

impl Request {
    /// Why the book refuses the request, if it does. A trigger is not
    /// refused here: its pass decides.
    pub open spec fn refusal(self, book: OrderBook) -> Option<OrderBookError> {
        match self {
            Request::Create { owner, is_bid, price, expected_amount, deposit_amount } => {
                book@.create_refusal(owner@, is_bid, expected_amount, deposit_amount)
            },
            Request::Cancel { owner } => if book@.has_active(owner@) {
                None
            } else {
                Some(OrderBookError::NoActiveOrder)
            },
            Request::Trigger => None,
            Request::Idle => None,
            Request::Malformed => Some(OrderBookError::MalformedMessage),
        }
    }

    /// The step of the book that the request stands for, if it is one.
    pub open spec fn call(self, timestamp: u64) -> Option<Call> {
        match self {
            Request::Create { owner, is_bid, price, expected_amount, deposit_amount } => Some(
                Call::Create {
                    address: owner@,
                    is_bid,
                    price,
                    expected_amount,
                    deposit_amount,
                    timestamp,
                },
            ),
            Request::Cancel { owner } => Some(Call::Cancel { address: owner@ }),
            _ => None,
        }
    }
}

/// Carries out a request to create or to cancel an order, at the block time
/// `timestamp`, and answers it: success, or failure with the reason and no
/// change. A deposit without payload succeeds and changes nothing, a
/// malformed one fails. For a trigger nothing is done and `None` is
/// returned: the caller runs the pass.
pub fn handle(book: &mut OrderBook, request: Request, timestamp: u64) -> (r: Option<HandleAnswer>)
    requires
        old(book).wf(),
    ensures
        final(book).wf(),
        old(book)@.status_moves_on(final(book)@),
        old(book).same_pair(*final(book)),
        final(book)@ == (match request.call(timestamp) {
            Some(call) => old(book)@.step(call),
            None => old(book)@,
        }),
        request is Trigger <==> r is None,
        r matches Some(answer) ==> is_status_answer(request.refusal(*old(book)), answer),
{
    proof {
        lemma_same_book(book@);
    }
    match request {
        Request::Create { owner, is_bid, price, expected_amount, deposit_amount } => {
            let created = book.create_limit_order(
                owner,
                is_bid,
                price,
                expected_amount,
                deposit_amount,
                timestamp,
            );
            match created {
                Ok(_) => Some(status_answer(None)),
                Err(e) => Some(status_answer(Some(e))),
            }
        },
        Request::Cancel { owner } => {
            match book.cancel_limit_order(&owner) {
                Ok(_) => Some(status_answer(None)),
                Err(e) => Some(status_answer(Some(e))),
            }
        },
        Request::Trigger => None,
        Request::Idle => Some(status_answer(None)),
        Request::Malformed => Some(status_answer(Some(OrderBookError::MalformedMessage))),
    }
}

proof fn lemma_same_book(b: crate::model::BookView)
    ensures
        b.status_moves_on(b),
{
}

} // verus!
