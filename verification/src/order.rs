//! The life of a single limit order.
//!
//! Matching policy. An order deposits `deposit_amount` of one asset and asks
//! for `expected_amount` of the other; that ratio is its price bound. A pool
//! quote offers `return_amount` for `offer_amount` of the deposit. The quote
//! crosses the order when it takes no more than what is left of the deposit
//! and pays at least the order's ratio:
//! `return_amount * deposit_amount >= offer_amount * expected_amount`.
//! A bid deposits the first asset and an ask the second, so the one
//! comparison serves both sides. The whole `return_amount` is credited to the
//! order. The order's `price` ranks it among the resting orders. The fee of
//! the deposited asset's schedule is recorded on the order and is charged by
//! the payout; balances are gross of it.

use crate::book::OrderBookError;
use crate::msg::{AmmPairReverseSimulationResponse, AmmPairSimulationResponse, LimitOrderState};
use vstd::prelude::*;

verus! {

/// Where an order stands. `Filled` and `Canceled` are final.
#[derive(Clone, Copy, Debug, PartialEq, Eq, Structural)]
pub enum OrderStatus {
    Active,
    PartiallyFilled,
    Filled,
    Canceled,
}

impl OrderStatus {
    /// The order still rests in the book.
    pub open spec fn is_open(self) -> bool {
        self == OrderStatus::Active || self == OrderStatus::PartiallyFilled
    }

    /// The status that an order may have after one step, given the status it had.
    pub open spec fn may_become(self, next: OrderStatus) -> bool {
        match self {
            OrderStatus::Active => true,
            OrderStatus::PartiallyFilled => next != OrderStatus::Active,
            OrderStatus::Filled => next == OrderStatus::Filled,
            OrderStatus::Canceled => next == OrderStatus::Canceled,
        }
    }

    /// Whether the order still rests in the book.
    pub fn open(self) -> (r: bool)
        ensures
            r == self.is_open(),
    {
        match self {
            OrderStatus::Active => true,
            OrderStatus::PartiallyFilled => true,
            OrderStatus::Filled => false,
            OrderStatus::Canceled => false,
        }
    }

    /// Whether a change of status from `self` to `next` is legal.
    pub fn can_transition(self, next: OrderStatus) -> (r: bool)
        ensures
            r == self.may_become(next),
    {
        match self {
            OrderStatus::Active => true,
            OrderStatus::PartiallyFilled => next != OrderStatus::Active,
            OrderStatus::Filled => next == OrderStatus::Filled,
            OrderStatus::Canceled => next == OrderStatus::Canceled,
        }
    }

    /// The change of status from `self` to `next`, where it is legal.
    pub fn transition(self, next: OrderStatus) -> (r: Result<OrderStatus, OrderBookError>)
        ensures
            r == (if self.may_become(next) {
                Ok::<OrderStatus, OrderBookError>(next)
            } else {
                Err::<OrderStatus, OrderBookError>(OrderBookError::InvalidTransition)
            }),
    {
        if self.can_transition(next) {
            Ok(next)
        } else {
            Err(OrderBookError::InvalidTransition)
        }
    }

    /// The name under which the status is shown.
    pub fn name(self) -> (s: &'static str)
        ensures
            s@ == self.spec_name(),
    {
        match self {
            OrderStatus::Active => "Active",
            OrderStatus::PartiallyFilled => "PartiallyFilled",
            OrderStatus::Filled => "Filled",
            OrderStatus::Canceled => "Canceled",
        }
    }

    /// The text of `name`.
    pub open spec fn spec_name(self) -> Seq<char> {
        match self {
            OrderStatus::Active => "Active"@,
            OrderStatus::PartiallyFilled => "PartiallyFilled"@,
            OrderStatus::Filled => "Filled"@,
            OrderStatus::Canceled => "Canceled"@,
        }
    }
}

/// A final status never changes: whatever a step may turn `Filled` or
/// `Canceled` into is that same status. And the legal changes compose.
pub proof fn lemma_status_monotonic(a: OrderStatus, b: OrderStatus, c: OrderStatus)
    ensures
        !a.is_open() && a.may_become(b) ==> b == a,
        a.may_become(a),
        a.may_become(b) && b.may_become(c) ==> a.may_become(c),
{
}

/// What the pool pays for a part of the deposit.
#[derive(Clone, Copy, Debug, PartialEq, Eq, Structural)]
pub struct PoolQuote {
    /// Amount of the deposited asset that the pool would take.
    pub offer_amount: u128,
    /// Amount of the other asset that the pool would pay for it.
    pub return_amount: u128,
}

impl PoolQuote {
    /// The quote that the pool's simulation of an offer of `offer_amount`
    /// gives: the pool pays the simulated return, net of spread and
    /// commission.
    pub fn from_simulation(offer_amount: u128, answer: &AmmPairSimulationResponse) -> (q: Self)
        ensures
            q == (PoolQuote { offer_amount, return_amount: answer.return_amount }),
    {
        PoolQuote { offer_amount, return_amount: answer.return_amount }
    }

    /// The quote that the pool's reverse simulation for `ask_amount` gives:
    /// the pool pays `ask_amount` for the simulated offer.
    pub fn from_reverse_simulation(
        ask_amount: u128,
        answer: &AmmPairReverseSimulationResponse,
    ) -> (q: Self)
        ensures
            q == (PoolQuote { offer_amount: answer.offer_amount, return_amount: ask_amount }),
    {
        PoolQuote { offer_amount: answer.offer_amount, return_amount: ask_amount }
    }
}

/// One order as the store keeps it.
#[derive(Clone, Copy, Debug, PartialEq, Eq, Structural)]
pub struct OrderRecord {
    /// Index of the owner among the book's users.
    pub owner: usize,
    pub is_bid: bool,
    pub status: OrderStatus,
    pub price: u128,
    pub deposit_amount: u128,
    pub expected_amount: u128,
    pub fee_amount: u128,
    /// Part of the deposit that fills have taken.
    pub consumed: u128,
    /// Amount of the other asset that fills have paid.
    pub received: u128,
    pub timestamp: u64,
}

impl OrderRecord {
    /// The record is well formed: no more is taken than was deposited, the
    /// amounts are small enough to compare prices with, what was paid
    /// honours the price bound, and the status agrees with what was taken.
    pub open spec fn wf(self) -> bool {
        &&& self.consumed <= self.deposit_amount
        &&& self.deposit_amount * self.expected_amount <= u128::MAX
        &&& self.received * self.deposit_amount >= self.consumed * self.expected_amount
        &&& self.status == OrderStatus::Active ==> self.consumed == 0 && self.received == 0
        &&& self.status == OrderStatus::PartiallyFilled ==> 0 < self.consumed
            < self.deposit_amount
        &&& self.status == OrderStatus::Filled ==> self.consumed == self.deposit_amount
    }

    /// What is left of the deposit.
    pub open spec fn remaining(self) -> int {
        self.deposit_amount - self.consumed
    }

    /// The asset that was deposited: 0 for a bid, 1 for an ask.
    pub open spec fn deposit_index(self) -> int {
        if self.is_bid {
            0
        } else {
            1
        }
    }

    /// The quote can be applied to the order within its price bound.
    pub open spec fn crosses(self, quote: PoolQuote) -> bool {
        &&& self.status.is_open()
        &&& quote.offer_amount <= self.remaining()
        &&& quote.offer_amount > 0 || self.remaining() == 0
        &&& quote.return_amount * self.deposit_amount >= quote.offer_amount
            * self.expected_amount
        &&& self.received + quote.return_amount <= u128::MAX
    }

    /// The order after a fill by `quote`.
    pub open spec fn after_fill(self, quote: PoolQuote) -> OrderRecord {
        OrderRecord {
            status: if quote.offer_amount == self.remaining() {
                OrderStatus::Filled
            } else {
                OrderStatus::PartiallyFilled
            },
            consumed: (self.consumed + quote.offer_amount) as u128,
            received: (self.received + quote.return_amount) as u128,
            ..self
        }
    }

    /// The order after its owner has canceled it.
    pub open spec fn after_cancel(self) -> OrderRecord {
        OrderRecord { status: OrderStatus::Canceled, ..self }
    }

    /// Settled balances per asset: what fills have paid, on the side that
    /// was asked for, and the returned rest of the deposit once canceled.
    pub open spec fn balances(self) -> Seq<u128> {
        let refund = if self.status == OrderStatus::Canceled {
            (self.deposit_amount - self.consumed) as u128
        } else {
            0u128
        };
        if self.is_bid {
            seq![refund, self.received]
        } else {
            seq![self.received, refund]
        }
    }

    /// A fresh order: `Active`, nothing consumed, nothing received.
    pub open spec fn fresh(
        owner: usize,
        is_bid: bool,
        price: u128,
        deposit_amount: u128,
        expected_amount: u128,
        fee_amount: u128,
        timestamp: u64,
    ) -> OrderRecord {
        OrderRecord {
            owner,
            is_bid,
            status: OrderStatus::Active,
            price,
            deposit_amount,
            expected_amount,
            fee_amount,
            consumed: 0,
            received: 0,
            timestamp,
        }
    }

    /// Decides whether the record is well formed.
    pub fn is_well_formed(&self) -> (r: bool)
        ensures
            r == self.wf(),
    {
        if self.consumed > self.deposit_amount {
            return false;
        }
        if self.deposit_amount.checked_mul(self.expected_amount).is_none() {
            return false;
        }
        proof {
            lemma_mul_le(
                self.consumed as int,
                self.deposit_amount as int,
                self.expected_amount as int,
            );
        }
        let asked: u128 = self.consumed * self.expected_amount;
        let paid_enough = match self.received.checked_mul(self.deposit_amount) {
            None => true,
            Some(paid) => paid >= asked,
        };
        let counted = match self.status {
            OrderStatus::Active => self.consumed == 0 && self.received == 0,
            OrderStatus::PartiallyFilled => 0 < self.consumed && self.consumed
                < self.deposit_amount,
            OrderStatus::Filled => self.consumed == self.deposit_amount,
            OrderStatus::Canceled => true,
        };
        paid_enough && counted
    }

    /// The size to ask the pool about: what is left of the deposit.
    pub fn remaining_amount(&self) -> (r: u128)
        requires
            self.wf(),
        ensures
            r == self.remaining(),
    {
        self.deposit_amount - self.consumed
    }

    /// Decides whether `quote` may fill the order.
    pub fn is_crossable(&self, quote: PoolQuote) -> (r: bool)
        requires
            self.wf(),
        ensures
            r == self.crosses(quote),
    {
        if !self.status.open() {
            return false;
        }
        let left: u128 = self.deposit_amount - self.consumed;
        if quote.offer_amount > left || (quote.offer_amount == 0 && left != 0) {
            return false;
        }
        if self.received.checked_add(quote.return_amount).is_none() {
            return false;
        }
        proof {
            lemma_mul_le(
                quote.offer_amount as int,
                self.deposit_amount as int,
                self.expected_amount as int,
            );
        }
        let asked: u128 = quote.offer_amount * self.expected_amount;
        match quote.return_amount.checked_mul(self.deposit_amount) {
            None => true,
            Some(paid) => paid >= asked,
        }
    }

    /// Applies a crossing quote: the order takes the whole return and is
    /// `Filled` when the quote takes all that was left, else `PartiallyFilled`.
    pub fn fill(self, quote: PoolQuote) -> (r: OrderRecord)
        requires
            self.wf(),
            self.crosses(quote),
        ensures
            r == self.after_fill(quote),
            r.wf(),
            self.status.may_become(r.status),
            r.status != OrderStatus::Active,
    {
        let left: u128 = self.deposit_amount - self.consumed;
        let status = if quote.offer_amount == left {
            OrderStatus::Filled
        } else {
            OrderStatus::PartiallyFilled
        };
        proof {
            lemma_fill_keeps_bound(
                self.received as int,
                self.consumed as int,
                quote.return_amount as int,
                quote.offer_amount as int,
                self.deposit_amount as int,
                self.expected_amount as int,
            );
        }
        OrderRecord {
            owner: self.owner,
            is_bid: self.is_bid,
            status,
            price: self.price,
            deposit_amount: self.deposit_amount,
            expected_amount: self.expected_amount,
            fee_amount: self.fee_amount,
            consumed: self.consumed + quote.offer_amount,
            received: self.received + quote.return_amount,
            timestamp: self.timestamp,
        }
    }

    /// Cancels a resting order and says how much of the deposit goes back.
    pub fn cancel(self) -> (r: (OrderRecord, u128))
        requires
            self.wf(),
            self.status.is_open(),
        ensures
            r.0 == self.after_cancel(),
            r.0.wf(),
            r.1 == self.remaining(),
            self.status.may_become(r.0.status),
    {
        let refund: u128 = self.deposit_amount - self.consumed;
        let rec = OrderRecord {
            owner: self.owner,
            is_bid: self.is_bid,
            status: OrderStatus::Canceled,
            price: self.price,
            deposit_amount: self.deposit_amount,
            expected_amount: self.expected_amount,
            fee_amount: self.fee_amount,
            consumed: self.consumed,
            received: self.received,
            timestamp: self.timestamp,
        };
        (rec, refund)
    }

    /// The order as it is shown to its owner. Once the order is final its
    /// balances are paid out, and `withdrew_balance` records them.
    pub fn to_state(&self) -> (s: LimitOrderState)
        requires
            self.wf(),
        ensures
            self.shown_as(s),
    {
        let refund: u128 = match self.status {
            OrderStatus::Canceled => self.deposit_amount - self.consumed,
            _ => 0,
        };
        let mut balances: Vec<u128> = Vec::new();
        let mut paid: Vec<u128> = Vec::new();
        if self.is_bid {
            balances.push(refund);
            balances.push(self.received);
            paid.push(refund);
            paid.push(self.received);
        } else {
            balances.push(self.received);
            balances.push(refund);
            paid.push(self.received);
            paid.push(refund);
        }
        assert(balances@ =~= self.balances());
        assert(paid@ =~= self.balances());
        let withdrew_balance = if self.status.open() {
            None
        } else {
            Some(paid)
        };
        LimitOrderState {
            is_bid: self.is_bid,
            status: self.status,
            price: self.price,
            deposit_token_index: if self.is_bid {
                0
            } else {
                1
            },
            deposit_amount: self.deposit_amount,
            expected_amount: self.expected_amount,
            fee_amount: self.fee_amount,
            balances,
            withdrew_balance,
            timestamp: self.timestamp,
        }
    }

    /// `s` shows this order.
    pub open spec fn shown_as(self, s: LimitOrderState) -> bool {
        &&& s.is_bid == self.is_bid
        &&& s.status == self.status
        &&& s.price == self.price
        &&& s.deposit_token_index == self.deposit_index()
        &&& s.deposit_amount == self.deposit_amount
        &&& s.expected_amount == self.expected_amount
        &&& s.fee_amount == self.fee_amount
        &&& s.balances@ == self.balances()
        &&& s.timestamp == self.timestamp
        &&& self.status.is_open() ==> s.withdrew_balance is None
        &&& !self.status.is_open() ==> s.withdrew_balance is Some
            && s.withdrew_balance->Some_0@ == self.balances()
    }
}

proof fn lemma_mul_le(a: int, b: int, c: int)
    requires
        0 <= a <= b,
        0 <= c,
    ensures
        a * c <= b * c,
{
    assert(a * c <= b * c) by (nonlinear_arith)
        requires
            0 <= a <= b,
            0 <= c,
    ;
}

proof fn lemma_fill_keeps_bound(r: int, c: int, ret: int, off: int, d: int, e: int)
    requires
        r * d >= c * e,
        ret * d >= off * e,
    ensures
        (r + ret) * d >= (c + off) * e,
{
    assert((r + ret) * d == r * d + ret * d) by (nonlinear_arith);
    assert((c + off) * e == c * e + off * e) by (nonlinear_arith);
}

/// A fill that pays no more units than it takes keeps the proceeds of an
/// order within what has been taken of its deposit.
pub proof fn lemma_fill_within_consumed(o: OrderRecord, quote: PoolQuote)
    requires
        o.wf(),
        o.crosses(quote),
        o.received <= o.consumed,
        quote.return_amount <= quote.offer_amount,
    ensures
        o.after_fill(quote).received <= o.after_fill(quote).consumed,
{
}

/// While the fills have paid no more units than they took, the balances of
/// an order that is not `Filled` add up to at most its deposit.
pub proof fn lemma_unfilled_balances_within_deposit(o: OrderRecord)
    requires
        o.wf(),
        o.status != OrderStatus::Filled,
        o.received <= o.consumed,
    ensures
        o.balances()[0] + o.balances()[1] <= o.deposit_amount,
{
}

/// A `Filled` order has given up its whole deposit, holds what the fills
/// paid on the side it asked for and nothing on the other, and was paid at
/// least what it expected.
pub proof fn lemma_filled_proceeds(o: OrderRecord)
    requires
        o.wf(),
        o.status == OrderStatus::Filled,
    ensures
        o.consumed == o.deposit_amount,
        o.balances()[o.deposit_index()] == 0,
        o.balances()[1 - o.deposit_index()] == o.received,
        o.deposit_amount > 0 ==> o.received >= o.expected_amount,
{
    if o.deposit_amount > 0 && o.received < o.expected_amount {
        let r = o.received as int;
        let e = o.expected_amount as int;
        let d = o.deposit_amount as int;
        assert(r * d < e * d) by (nonlinear_arith)
            requires
                r < e,
                d > 0,
        ;
        assert(e * d == d * e) by (nonlinear_arith);
    }
}

/// A fill within the price bound leaves the order well formed, and its
/// status is one that the old status may become.
pub proof fn lemma_fill_keeps_wf(o: OrderRecord, quote: PoolQuote)
    requires
        o.wf(),
        o.crosses(quote),
    ensures
        o.after_fill(quote).wf(),
        o.status.may_become(o.after_fill(quote).status),
        o.after_fill(quote).owner == o.owner,
{
    lemma_fill_keeps_bound(
        o.received as int,
        o.consumed as int,
        quote.return_amount as int,
        quote.offer_amount as int,
        o.deposit_amount as int,
        o.expected_amount as int,
    );
}

/// A fill adds exactly the quote to the order: the offer to what was taken
/// of the deposit, the return to the proceeds, and both stay within bounds.
pub proof fn lemma_fill_accounts(o: OrderRecord, quote: PoolQuote)
    requires
        o.wf(),
        o.crosses(quote),
    ensures
        o.after_fill(quote).consumed == o.consumed + quote.offer_amount,
        o.after_fill(quote).received == o.received + quote.return_amount,
        o.after_fill(quote).consumed <= o.deposit_amount,
        o.after_fill(quote).status == OrderStatus::Filled <==> quote.offer_amount
            == o.remaining(),
{
}

} // verus!
