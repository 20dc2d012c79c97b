//! The order store and the matching and settlement engine.

use crate::msg::{
    AssetInfo, FactoryHandleMsg, HandleAnswer, InitMsg, LimitOrderState, ResponseStatus,
    UserOrderMap,
};
use crate::order::{OrderRecord, OrderStatus, PoolQuote};
use crate::model::{
    lemma_cancel_keeps_wf, lemma_create_keeps_wf, lemma_fill_keeps_wf, lemma_index_of,
    lemma_update_keeps_wf, BookView, Call, UserView,
};
use vstd::prelude::*;

verus! {

/// Why a request was refused.
#[derive(Clone, Copy, Debug, PartialEq, Eq, Structural)]
pub enum OrderBookError {
    /// The deposit is under the asset's minimum.
    BelowMinimum,
    /// Deposit and expected amount are too large to compare prices with.
    AmountTooLarge,
    AlreadyHasActiveOrder,
    NoActiveOrder,
    InvalidTransition,
    NotFound,
    OracleUnavailable,
    Unauthorized,
    /// A deposit came with a payload that is no order.
    MalformedMessage,
}

impl OrderBookError {
    /// The text of `message`.
    pub open spec fn spec_message(self) -> Seq<char> {
        match self {
            OrderBookError::BelowMinimum => "deposit is below the minimum amount"@,
            OrderBookError::AmountTooLarge => "amounts are too large"@,
            OrderBookError::AlreadyHasActiveOrder => "user already has an active order"@,
            OrderBookError::NoActiveOrder => "user has no active order"@,
            OrderBookError::InvalidTransition => "invalid status transition"@,
            OrderBookError::NotFound => "order not found"@,
            OrderBookError::OracleUnavailable => "price oracle unavailable"@,
            OrderBookError::Unauthorized => "unauthorized"@,
            OrderBookError::MalformedMessage => "malformed message"@,
        }
    }

    /// The description that a failure response carries.
    pub fn message(self) -> (s: String)
        ensures
            s@ == self.spec_message(),
    {
        let text = match self {
            OrderBookError::BelowMinimum => "deposit is below the minimum amount",
            OrderBookError::AmountTooLarge => "amounts are too large",
            OrderBookError::AlreadyHasActiveOrder => "user already has an active order",
            OrderBookError::NoActiveOrder => "user has no active order",
            OrderBookError::InvalidTransition => "invalid status transition",
            OrderBookError::NotFound => "order not found",
            OrderBookError::OracleUnavailable => "price oracle unavailable",
            OrderBookError::Unauthorized => "unauthorized",
            OrderBookError::MalformedMessage => "malformed message",
        };
        text.to_owned()
    }
}

/// `answer` is the response to a request that was refused for `refusal`,
/// or that was carried out: success, or failure with the reason.
pub open spec fn is_status_answer(refusal: Option<OrderBookError>, answer: HandleAnswer) -> bool {
    match refusal {
        None => answer == (HandleAnswer::Status {
            status: ResponseStatus::Success,
            message: None,
        }),
        Some(e) => answer matches HandleAnswer::Status {
            status: ResponseStatus::Failure,
            message: Some(m),
        } && m@ == e.spec_message(),
    }
}

/// The response to a handle request: success, or failure with the reason.
pub fn status_answer(refusal: Option<OrderBookError>) -> (r: HandleAnswer)
    ensures
        is_status_answer(refusal, r),
{
    match refusal {
        None => HandleAnswer::Status { status: ResponseStatus::Success, message: None },
        Some(e) => HandleAnswer::Status {
            status: ResponseStatus::Failure,
            message: Some(e.message()),
        },
    }
}

/// What a trigger did to one order.
#[derive(Clone, Copy, Debug, PartialEq, Eq, Structural)]
pub enum TriggerOutcome {
    /// The quote does not cross the order: nothing changed.
    Untouched,
    /// A part of what was left has been filled; the order still rests.
    PartiallyFilled,
    /// All that was left has been filled; the order is in the history.
    Filled,
}

/// A user of the book: the address, and the user's orders.
pub struct UserRecord {
    pub address: String,
    pub orders: UserOrderMap,
}

impl View for UserRecord {
    type V = UserView;

    open spec fn view(&self) -> UserView {
        UserView {
            address: self.address@,
            active: self.orders.active_order,
            history: self.orders.history_orders@,
        }
    }
}

/// The order store. An order's identifier is its position in `orders`;
/// identifiers are never reused.
///
/// A trigger pass is driven from outside: `next_to_trigger` walks the
/// resting orders of one side in price-then-time priority, the caller asks
/// the pool about what is left of each, and `trigger_order` applies the
/// answer. Every crossable order that the walk reaches is filled, and each
/// quote is held against the order's bound at the moment it is applied.
pub struct OrderBook {
    pub amm_pair_address: String,
    pub asset1: AssetInfo,
    pub asset2: AssetInfo,
    pub orders: Vec<OrderRecord>,
    pub users: Vec<UserRecord>,
}

impl View for OrderBook {
    type V = BookView;

    open spec fn view(&self) -> BookView {
        BookView {
            min_amounts: (self.asset1.min_amount, self.asset2.min_amount),
            fee_amounts: (self.asset1.fee_amount, self.asset2.fee_amount),
            orders: self.orders@,
            users: Seq::new(self.users@.len(), |u: int| self.users@[u]@),
        }
    }
}

impl OrderBook {
    /// The book is well formed, as its model says.
    pub open spec fn wf(self) -> bool {
        self@.wf()
    }

    /// `next` rests on the same pool and trades the same two assets.
    pub open spec fn same_pair(self, next: OrderBook) -> bool {
        &&& next.amm_pair_address == self.amm_pair_address
        &&& next.asset1 == self.asset1
        &&& next.asset2 == self.asset2
    }

    /// An empty book for a pair of assets.
    pub fn new(amm_pair_address: String, asset1: AssetInfo, asset2: AssetInfo) -> (book: Self)
        ensures
            book.wf(),
            book@.orders.len() == 0,
            book@.users.len() == 0,
            book.amm_pair_address == amm_pair_address,
            book.asset1 == asset1,
            book.asset2 == asset2,
    {
        OrderBook { amm_pair_address, asset1, asset2, orders: Vec::new(), users: Vec::new() }
    }

    /// Sets the book up as the init message describes it, empty, and says
    /// what to tell the factory: the contract's address, the pool, both
    /// assets, and the factory's key as the authentication key.
    pub fn init(msg: InitMsg, contract_address: String) -> (r: (OrderBook, FactoryHandleMsg))
        ensures
            r.0.wf(),
            r.0@.orders.len() == 0,
            r.0@.users.len() == 0,
            r.0.amm_pair_address == msg.amm_pair_contract_address,
            r.0.asset1 == msg.token1_info,
            r.0.asset2 == msg.token2_info,
            r.1 == (FactoryHandleMsg::InitCallBackFromSecretOrderBookToFactory {
                auth_key: msg.factory_key,
                contract_address,
                amm_pair_address: msg.amm_pair_contract_address,
                token1_info: msg.token1_info,
                token2_info: msg.token2_info,
            }),
    {
        let callback = FactoryHandleMsg::InitCallBackFromSecretOrderBookToFactory {
            auth_key: msg.factory_key,
            contract_address,
            amm_pair_address: msg.amm_pair_contract_address.clone(),
            token1_info: msg.token1_info.duplicate(),
            token2_info: msg.token2_info.duplicate(),
        };
        let book = OrderBook::new(msg.amm_pair_contract_address, msg.token1_info, msg.token2_info);
        (book, callback)
    }

    /// Looks a user up by address.
    pub fn find_user(&self, address: &String) -> (r: Option<usize>)
        ensures
            match r {
                Some(u) => self@.is_user(u as int, address@),
                None => !self@.knows(address@),
            },
    {
        let mut u: usize = 0;
        while u < self.users.len()
            invariant
                u <= self.users.len(),
                forall|v: int| 0 <= v < u ==> !self@.is_user(v, address@),
            decreases self.users.len() - u,
        {
            if self.users[u].address == *address {
                return Some(u);
            }
            u += 1;
        }
        None
    }

    /// The state of the order `order_id`; `NotFound` when there is none.
    pub fn get(&self, order_id: u128) -> (r: Result<LimitOrderState, OrderBookError>)
        requires
            self.wf(),
        ensures
            match r {
                Ok(s) => self@.is_order(order_id as int) && self@.orders[order_id as int].shown_as(
                    s,
                ),
                Err(e) => !self@.is_order(order_id as int) && e == OrderBookError::NotFound,
            },
    {
        if order_id >= self.orders.len() as u128 {
            return Err(OrderBookError::NotFound);
        }
        let i: usize = order_id as usize;
        assert(self@.orders[i as int].wf());
        Ok(self.orders[i].to_state())
    }

    /// Creates an order for `address`, who has deposited `deposit_amount` of
    /// the first asset (a bid) or of the second (an ask). Refused below the
    /// asset's minimum, when the amounts are too large to compare prices
    /// with, and when the user has a resting order; a refusal changes
    /// nothing. Else the order gets the next identifier, which is returned,
    /// and rests as the user's active order.
    pub fn create_limit_order(
        &mut self,
        address: String,
        is_bid: bool,
        price: u128,
        expected_amount: u128,
        deposit_amount: u128,
        timestamp: u64,
    ) -> (r: Result<u128, OrderBookError>)
        requires
            old(self).wf(),
        ensures
            final(self).wf(),
            old(self)@.status_moves_on(final(self)@),
            old(self).same_pair(*final(self)),
            final(self)@ == old(self)@.step(
                Call::Create {
                    address: address@,
                    is_bid,
                    price,
                    expected_amount,
                    deposit_amount,
                    timestamp,
                },
            ),
            match r {
                Err(e) => *final(self) == *old(self) && old(self)@.create_refusal(
                    address@,
                    is_bid,
                    expected_amount,
                    deposit_amount,
                ) == Some(e),
                Ok(id) => {
                    &&& old(self)@.create_refusal(address@, is_bid, expected_amount, deposit_amount)
                        is None
                    &&& id == old(self)@.orders.len()
                    &&& final(self)@ == old(self)@.create(
                        address@,
                        is_bid,
                        price,
                        expected_amount,
                        deposit_amount,
                        timestamp,
                    )
                },
            },
    {
        let (min_amount, fee_amount) = if is_bid {
            (self.asset1.min_amount, self.asset1.fee_amount)
        } else {
            (self.asset2.min_amount, self.asset2.fee_amount)
        };
        if deposit_amount < min_amount {
            return Err(OrderBookError::BelowMinimum);
        }
        if deposit_amount.checked_mul(expected_amount).is_none() {
            return Err(OrderBookError::AmountTooLarge);
        }
        let id: u128 = self.orders.len() as u128;
        let found = self.find_user(&address);
        let owner: usize = match found {
            Some(u) => {
                proof {
                    lemma_index_of(self@, u as int, address@);
                }
                if self.users[u].orders.active_order.is_some() {
                    return Err(OrderBookError::AlreadyHasActiveOrder);
                }
                self.users[u].orders.active_order = Some(id);
                u
            },
            None => {
                let u = self.users.len();
                self.users.push(
                    UserRecord {
                        address,
                        orders: UserOrderMap { active_order: Some(id), history_orders: Vec::new() },
                    },
                );
                u
            },
        };
        self.orders.push(
            OrderRecord {
                owner,
                is_bid,
                status: OrderStatus::Active,
                price,
                deposit_amount,
                expected_amount,
                fee_amount,
                consumed: 0,
                received: 0,
                timestamp,
            },
        );
        let order_count = self.orders.len();
        let user_count = self.users.len();
        proof {
            assert(old(self)@.orders.len() + 1 == order_count);
            assert(found is None ==> old(self)@.users.len() + 1 == user_count);
            let next = old(self)@.create(
                address@,
                is_bid,
                price,
                expected_amount,
                deposit_amount,
                timestamp,
            );
            assert(self@.users =~= next.users);
            assert(self@.orders =~= next.orders);
            lemma_create_keeps_wf(
                old(self)@,
                address@,
                is_bid,
                price,
                expected_amount,
                deposit_amount,
                timestamp,
            );
        }
        Ok(id)
    }

    /// Takes the order `id` of user `u` out of the active slot and appends
    /// it to the user's history.
    fn archive(&mut self, u: usize, id: u128)
        requires
            u < old(self).users.len(),
        ensures
            final(self)@ == (BookView { users: old(self)@.archive(u as int, id), ..old(self)@ }),
            old(self).same_pair(*final(self)),
    {
        self.users[u].orders.active_order = None;
        self.users[u].orders.history_orders.push(id);
        assert(self@.users =~= old(self)@.archive(u as int, id));
    }

    /// Puts `next` in the place of the resting order `order_id`. `NotFound`
    /// when there is no such order; `InvalidTransition` when the order is
    /// final already, when its status may not become that of `next`, or
    /// when `next` is not a well-formed record of the same owner; neither
    /// changes anything. With a final status the order leaves the active
    /// slot and is appended to its owner's history in the same step.
    pub fn update(&mut self, order_id: u128, next: OrderRecord) -> (r: Result<(), OrderBookError>)
        requires
            old(self).wf(),
        ensures
            final(self).wf(),
            old(self)@.status_moves_on(final(self)@),
            old(self).same_pair(*final(self)),
            match r {
                Err(e) => *final(self) == *old(self) && old(self)@.update_refusal(order_id, next)
                    == Some(e),
                Ok(_) => old(self)@.update_refusal(order_id, next) is None && final(self)@ == old(
                    self,
                )@.update(order_id as int, next),
            },
    {
        proof {
            lemma_same_moves_on(self@);
        }
        if order_id >= self.orders.len() as u128 {
            return Err(OrderBookError::NotFound);
        }
        let i: usize = order_id as usize;
        let order = self.orders[i];
        if !order.status.open() || !order.status.can_transition(next.status)
            || !next.is_well_formed() || next.owner != order.owner {
            return Err(OrderBookError::InvalidTransition);
        }
        assert(self@.orders[i as int].owner < self@.users.len());
        self.orders.set(i, next);
        if !next.status.open() {
            self.archive(next.owner, order_id);
        }
        proof {
            assert(self@.orders =~= old(self)@.update(i as int, next).orders);
            assert(self@.users =~= old(self)@.update(i as int, next).users);
            lemma_update_keeps_wf(old(self)@, i as int, next);
        }
        Ok(())
    }

    /// Cancels the resting order of the user with `address` and returns the
    /// part of the deposit that goes back: what no fill has taken. The order
    /// becomes `Canceled` and moves to the user's history. `NoActiveOrder`,
    /// and no change, when the user has no resting order.
    pub fn cancel_limit_order(&mut self, address: &String) -> (r: Result<u128, OrderBookError>)
        requires
            old(self).wf(),
        ensures
            final(self).wf(),
            old(self)@.status_moves_on(final(self)@),
            old(self).same_pair(*final(self)),
            final(self)@ == old(self)@.step(Call::Cancel { address: address@ }),
            match r {
                Err(e) => *final(self) == *old(self) && !old(self)@.has_active(address@) && e
                    == OrderBookError::NoActiveOrder,
                Ok(refund) => {
                    &&& old(self)@.has_active(address@)
                    &&& final(self)@ == old(self)@.cancel(address@)
                    &&& refund == old(self)@.orders[old(self)@.users[old(self)@.index_of(
                        address@,
                    )].active->Some_0 as int].remaining()
                },
            },
    {
        let u = match self.find_user(address) {
            Some(u) => u,
            None => {
                return Err(OrderBookError::NoActiveOrder);
            },
        };
        proof {
            lemma_index_of(self@, u as int, address@);
        }
        let id = match self.users[u].orders.active_order {
            Some(id) => id,
            None => {
                return Err(OrderBookError::NoActiveOrder);
            },
        };
        assert(self@.users[u as int].active == Some(id));
        let i: usize = id as usize;
        assert(self@.orders[i as int].wf() && self@.orders[i as int].status.is_open());
        let (rec, refund) = self.orders[i].cancel();
        self.orders.set(i, rec);
        self.archive(u, id);
        proof {
            assert(self@.orders =~= old(self)@.cancel(address@).orders);
            lemma_cancel_keeps_wf(old(self)@, address@);
        }
        Ok(refund)
    }

    /// Applies the pool's answer for the order `order_id`. `NotFound` when
    /// there is no such order, `OracleUnavailable` when the pool gave no
    /// answer; neither changes anything. A quote that does not cross the
    /// order leaves the book as it is. A crossing quote fills the order: it
    /// becomes `Filled` and moves to its owner's history when the quote
    /// takes all that was left, else `PartiallyFilled`, and stays active.
    pub fn trigger_order(&mut self, order_id: u128, quote: Option<PoolQuote>) -> (r: Result<
        TriggerOutcome,
        OrderBookError,
    >)
        requires
            old(self).wf(),
        ensures
            final(self).wf(),
            old(self)@.status_moves_on(final(self)@),
            old(self).same_pair(*final(self)),
            r == old(self)@.trigger_result(order_id, quote),
            final(self)@ == old(self)@.after_trigger(order_id, quote),
            final(self)@ == old(self)@.step(Call::Trigger { order_id, quote }),
            r is Err || r == Ok::<TriggerOutcome, OrderBookError>(TriggerOutcome::Untouched)
                ==> *final(self) == *old(self),
    {
        if order_id >= self.orders.len() as u128 {
            proof {
                lemma_same_moves_on(self@);
            }
            return Err(OrderBookError::NotFound);
        }
        let i: usize = order_id as usize;
        let q = match quote {
            Some(q) => q,
            None => {
                proof {
                    lemma_same_moves_on(self@);
                }
                return Err(OrderBookError::OracleUnavailable);
            },
        };
        assert(self@.orders[i as int].wf());
        let rec = self.orders[i];
        if !rec.is_crossable(q) {
            proof {
                lemma_same_moves_on(self@);
            }
            return Ok(TriggerOutcome::Untouched);
        }
        let after = rec.fill(q);
        self.orders.set(i, after);
        let outcome = match after.status {
            OrderStatus::Filled => {
                self.archive(after.owner, order_id);
                TriggerOutcome::Filled
            },
            _ => TriggerOutcome::PartiallyFilled,
        };
        proof {
            assert(self@.orders =~= old(self)@.fill(i as int, q).orders);
            assert(self@.users =~= old(self)@.fill(i as int, q).users);
            lemma_fill_keeps_wf(old(self)@, i as int, q);
        }
        Ok(outcome)
    }

    /// Whether order `a` comes before order `b` on the side `is_bid`.
    fn comes_before(&self, is_bid: bool, a: usize, b: usize) -> (r: bool)
        requires
            a < self.orders.len(),
            b < self.orders.len(),
        ensures
            r == self@.precedes(is_bid, a as int, b as int),
    {
        let x = self.orders[a];
        let y = self.orders[b];
        if x.price != y.price {
            if is_bid {
                x.price > y.price
            } else {
                x.price < y.price
            }
        } else if x.timestamp != y.timestamp {
            x.timestamp < y.timestamp
        } else {
            a < b
        }
    }

    /// The next order of a trigger pass over one side: the resting order
    /// that comes first in priority after the order `after`, or the first of
    /// all where `after` is `None`. `None` when the pass is over, and when
    /// `after` is no order.
    pub fn next_to_trigger(&self, is_bid: bool, after: Option<u128>) -> (r: Option<u128>)
        ensures
            self@.is_next(is_bid, after, r),
    {
        let count = self.orders.len();
        let start: Option<usize> = match after {
            Some(a) => {
                if a >= count as u128 {
                    return None;
                }
                Some(a as usize)
            },
            None => None,
        };
        let mut best: Option<usize> = None;
        let mut i: usize = 0;
        while i < count
            invariant
                i <= count,
                count == self.orders.len(),
                match after {
                    Some(a) => start == Some(a as usize) && a < count,
                    None => start is None,
                },
                match best {
                    Some(b) => {
                        &&& b < i
                        &&& self@.follows(is_bid, after, b as int)
                        &&& forall|j: int|
                            0 <= j < i && self@.follows(is_bid, after, j) && j != b
                                ==> self@.precedes(is_bid, b as int, j)
                    },
                    None => forall|j: int| 0 <= j < i ==> !self@.follows(is_bid, after, j),
                },
            decreases count - i,
        {
            let o = self.orders[i];
            let eligible = o.is_bid == is_bid && o.status.open() && match start {
                Some(a) => self.comes_before(is_bid, a, i),
                None => true,
            };
            if eligible {
                match best {
                    Some(b) => {
                        if self.comes_before(is_bid, i, b) {
                            best = Some(i);
                        }
                    },
                    None => {
                        best = Some(i);
                    },
                }
            }
            i += 1;
        }
        match best {
            Some(b) => Some(b as u128),
            None => None,
        }
    }

    /// What a pass over the side `is_bid` asks the pool after the order
    /// `after`, or first where `after` is `None`: the next order in
    /// priority and what is left of its deposit. `None` when the pass is
    /// over.
    pub fn next_question(&self, is_bid: bool, after: Option<u128>) -> (r: Option<(u128, u128)>)
        requires
            self.wf(),
        ensures
            self@.is_next_question(is_bid, after, r),
    {
        match self.next_to_trigger(is_bid, after) {
            Some(id) => {
                assert(self@.follows(is_bid, after, id as int));
                assert(self@.orders[id as int].wf());
                Some((id, self.orders[id as usize].remaining_amount()))
            },
            None => None,
        }
    }

    /// One step of a trigger pass over the side `is_bid`: applies the
    /// pool's answer for the order `order_id` as `trigger_order` does, and
    /// says what to ask the pool next. Without an answer the pass ends with
    /// `OracleUnavailable`, and nothing changes.
    pub fn pass_step(&mut self, is_bid: bool, order_id: u128, quote: Option<PoolQuote>) -> (r:
        Result<(TriggerOutcome, Option<(u128, u128)>), OrderBookError>)
        requires
            old(self).wf(),
        ensures
            final(self).wf(),
            old(self)@.status_moves_on(final(self)@),
            old(self).same_pair(*final(self)),
            final(self)@ == old(self)@.after_trigger(order_id, quote),
            match r {
                Ok((outcome, ask)) => {
                    &&& old(self)@.trigger_result(order_id, quote) == Ok::<
                        TriggerOutcome,
                        OrderBookError,
                    >(outcome)
                    &&& final(self)@.is_next_question(is_bid, Some(order_id), ask)
                },
                Err(e) => *final(self) == *old(self) && old(self)@.trigger_result(order_id, quote)
                    == Err::<TriggerOutcome, OrderBookError>(e),
            },
    {
        match self.trigger_order(order_id, quote) {
            Ok(outcome) => Ok((outcome, self.next_question(is_bid, Some(order_id)))),
            Err(e) => Err(e),
        }
    }

    /// The probe before a trigger pass: `quotes[i]`, where there is one, is
    /// the pool's answer for the order `i`. Says whether some resting order
    /// is crossed by its quote. Changes nothing.
    pub fn check_order_book_trigger(&self, quotes: &Vec<Option<PoolQuote>>) -> (r: bool)
        requires
            self.wf(),
        ensures
            r == self@.any_crossable(quotes@),
    {
        let mut i: usize = 0;
        while i < self.orders.len() && i < quotes.len()
            invariant
                self.wf(),
                forall|j: int|
                    0 <= j < i && j < quotes@.len() && self@.is_order(j) && (
                    #[trigger] quotes@[j]) is Some ==> !self@.orders[j].crosses(
                        quotes@[j]->Some_0,
                    ),
            decreases self.orders.len() - i,
        {
            assert(self@.orders[i as int].wf());
            match quotes[i] {
                Some(q) => {
                    if self.orders[i].is_crossable(q) {
                        return true;
                    }
                },
                None => {},
            }
            i += 1;
        }
        false
    }
}

proof fn lemma_same_moves_on(b: BookView)
    ensures
        b.status_moves_on(b),
{
}

} // verus!
