//! The book as a mathematical value, and the steps it can take.
//!
//! An order's identifier is its position in `orders`. The laws of the book
//! are stated and proved here, on the model; the engine's functions are
//! proved to take exactly these steps.

use crate::book::{OrderBookError, TriggerOutcome};
use crate::order::{OrderRecord, OrderStatus, PoolQuote};
use vstd::prelude::*;

verus! {

/// One user of the book.
pub ghost struct UserView {
    pub address: Seq<char>,
    pub active: Option<u128>,
    pub history: Seq<u128>,
}

/// One request to the engine.
pub ghost enum Call {
    Create {
        address: Seq<char>,
        is_bid: bool,
        price: u128,
        expected_amount: u128,
        deposit_amount: u128,
        timestamp: u64,
    },
    Cancel { address: Seq<char> },
    Trigger { order_id: u128, quote: Option<PoolQuote> },
}

/// The whole book.
pub ghost struct BookView {
    /// Minimum deposit of the first and of the second asset.
    pub min_amounts: (u128, u128),
    /// Fee of the first and of the second asset.
    pub fee_amounts: (u128, u128),
    pub orders: Seq<OrderRecord>,
    pub users: Seq<UserView>,
}

impl BookView {
    /// User `u` has the address `address`.
    pub open spec fn is_user(self, u: int, address: Seq<char>) -> bool {
        0 <= u < self.users.len() && self.users[u].address == address
    }

    /// Some user has the address `address`.
    pub open spec fn knows(self, address: Seq<char>) -> bool {
        exists|u: int| self.is_user(u, address)
    }

    /// The position of the user with this address, if the book knows it.
    pub open spec fn index_of(self, address: Seq<char>) -> int {
        choose|u: int| self.is_user(u, address)
    }

    /// The user with this address has a resting order.
    pub open spec fn has_active(self, address: Seq<char>) -> bool {
        self.knows(address) && self.users[self.index_of(address)].active is Some
    }

    /// `id` is the identifier of an order.
    pub open spec fn is_order(self, id: int) -> bool {
        0 <= id < self.orders.len()
    }

    /// No two users share an address.
    pub open spec fn addresses_differ(self) -> bool {
        forall|u: int, v: int|
            0 <= u < v < self.users.len() ==> self.users[u].address != self.users[v].address
    }

    /// Every order is well formed and has an owner among the users.
    pub open spec fn orders_sound(self) -> bool {
        forall|i: int|
            self.is_order(i) ==> (#[trigger] self.orders[i]).wf() && self.orders[i].owner
                < self.users.len()
    }

    /// An order rests exactly when it stands in its owner's active slot.
    pub open spec fn slots_match(self) -> bool {
        forall|i: int|
            self.is_order(i) ==> ((#[trigger] self.orders[i]).status.is_open()
                <==> self.users[self.orders[i].owner as int].active == Some(i as u128))
    }

    /// What stands in a user's active slot is an order of that user.
    pub open spec fn actives_sound(self) -> bool {
        forall|u: int|
            0 <= u < self.users.len() ==> ((#[trigger] self.users[u]).active matches Some(id)
                ==> self.is_order(id as int) && self.orders[id as int].owner == u)
    }

    /// What stands in a user's history is a final order of that user.
    pub open spec fn histories_sound(self) -> bool {
        forall|u: int, k: int|
            0 <= u < self.users.len() && 0 <= k < self.users[u].history.len()
                ==> self.archived(u, #[trigger] self.users[u].history[k] as int)
    }

    /// No order stands twice in a history.
    pub open spec fn histories_unique(self) -> bool {
        forall|u: int, k: int, l: int|
            0 <= u < self.users.len() && 0 <= k < l < self.users[u].history.len()
                ==> self.users[u].history[k] != self.users[u].history[l]
    }

    /// Every final order stands in its owner's history.
    pub open spec fn finals_archived(self) -> bool {
        forall|i: int|
            self.is_order(i) && !(#[trigger] self.orders[i]).status.is_open()
                ==> self.users[self.orders[i].owner as int].history.contains(i as u128)
    }

    /// The book is well formed: all of the above, within the machine's
    /// limits.
    pub open spec fn wf(self) -> bool {
        &&& self.orders.len() <= usize::MAX
        &&& self.users.len() <= usize::MAX
        &&& self.addresses_differ()
        &&& self.orders_sound()
        &&& self.slots_match()
        &&& self.actives_sound()
        &&& self.histories_sound()
        &&& self.histories_unique()
        &&& self.finals_archived()
    }

    /// `id` is a final order of user `u`.
    pub open spec fn archived(self, u: int, id: int) -> bool {
        self.is_order(id) && self.orders[id].owner == u && !self.orders[id].status.is_open()
    }

    /// Every order of `self` is in `next` under the same identifier, with a
    /// status that its old status may become.
    pub open spec fn status_moves_on(self, next: BookView) -> bool {
        &&& self.orders.len() <= next.orders.len()
        &&& forall|i: int|
            self.is_order(i) ==> (#[trigger] self.orders[i]).status.may_become(
                next.orders[i].status,
            )
    }

    /// The minimum deposit of the asset that an order of this side deposits.
    pub open spec fn min_deposit(self, is_bid: bool) -> u128 {
        if is_bid {
            self.min_amounts.0
        } else {
            self.min_amounts.1
        }
    }

    /// The fee of the asset that an order of this side deposits.
    pub open spec fn deposit_fee(self, is_bid: bool) -> u128 {
        if is_bid {
            self.fee_amounts.0
        } else {
            self.fee_amounts.1
        }
    }

    /// Why an order cannot be created, if it cannot.
    pub open spec fn create_refusal(
        self,
        address: Seq<char>,
        is_bid: bool,
        expected_amount: u128,
        deposit_amount: u128,
    ) -> Option<OrderBookError> {
        if deposit_amount < self.min_deposit(is_bid) {
            Some(OrderBookError::BelowMinimum)
        } else if deposit_amount * expected_amount > u128::MAX {
            Some(OrderBookError::AmountTooLarge)
        } else if self.has_active(address) {
            Some(OrderBookError::AlreadyHasActiveOrder)
        } else {
            None
        }
    }

    /// The book after an order has been created for `address`.
    pub open spec fn create(
        self,
        address: Seq<char>,
        is_bid: bool,
        price: u128,
        expected_amount: u128,
        deposit_amount: u128,
        timestamp: u64,
    ) -> BookView {
        let id = self.orders.len() as u128;
        let owner = if self.knows(address) {
            self.index_of(address)
        } else {
            self.users.len() as int
        };
        let users = if self.knows(address) {
            self.users.update(owner, UserView { active: Some(id), ..self.users[owner] })
        } else {
            self.users.push(UserView { address, active: Some(id), history: Seq::empty() })
        };
        let order = OrderRecord::fresh(
            owner as usize,
            is_bid,
            price,
            deposit_amount,
            expected_amount,
            self.deposit_fee(is_bid),
            timestamp,
        );
        BookView { orders: self.orders.push(order), users, ..self }
    }

    /// The users after the order `id` of user `u` has left the active slot.
    pub open spec fn archive(self, u: int, id: u128) -> Seq<UserView> {
        self.users.update(
            u,
            UserView { active: None, history: self.users[u].history.push(id), ..self.users[u] },
        )
    }

    /// The book after the user with `address` has canceled the resting order.
    pub open spec fn cancel(self, address: Seq<char>) -> BookView {
        let u = self.index_of(address);
        let id = self.users[u].active->Some_0;
        BookView {
            orders: self.orders.update(id as int, self.orders[id as int].after_cancel()),
            users: self.archive(u, id),
            ..self
        }
    }

    /// `next` may take the place of the order `id`: the order rests, its
    /// status may become that of `next`, and `next` is a well-formed record
    /// of the same owner.
    pub open spec fn update_allowed(self, id: int, next: OrderRecord) -> bool {
        &&& self.orders[id].status.is_open()
        &&& self.orders[id].status.may_become(next.status)
        &&& next.wf()
        &&& next.owner == self.orders[id].owner
    }

    /// Why the order `id` cannot be replaced by `next`, if it cannot.
    pub open spec fn update_refusal(self, id: u128, next: OrderRecord) -> Option<OrderBookError> {
        if !self.is_order(id as int) {
            Some(OrderBookError::NotFound)
        } else if !self.update_allowed(id as int, next) {
            Some(OrderBookError::InvalidTransition)
        } else {
            None
        }
    }

    /// The book after `next` has taken the place of the order `id`. With a
    /// final status the order leaves the active slot for the history in the
    /// same step.
    pub open spec fn update(self, id: int, next: OrderRecord) -> BookView {
        BookView {
            orders: self.orders.update(id, next),
            users: if next.status.is_open() {
                self.users
            } else {
                self.archive(next.owner as int, id as u128)
            },
            ..self
        }
    }

    /// The quote can be applied to the order `id`.
    pub open spec fn crossable(self, id: int, quote: PoolQuote) -> bool {
        self.is_order(id) && self.orders[id].crosses(quote)
    }

    /// The book after `quote` has filled the order `id`.
    pub open spec fn fill(self, id: int, quote: PoolQuote) -> BookView {
        let after = self.orders[id].after_fill(quote);
        BookView {
            orders: self.orders.update(id, after),
            users: if after.status == OrderStatus::Filled {
                self.archive(after.owner as int, id as u128)
            } else {
                self.users
            },
            ..self
        }
    }

    /// What a trigger of the order `id` with the pool's answer returns.
    pub open spec fn trigger_result(self, id: u128, quote: Option<PoolQuote>) -> Result<
        TriggerOutcome,
        OrderBookError,
    > {
        if !self.is_order(id as int) {
            Err(OrderBookError::NotFound)
        } else if quote is None {
            Err(OrderBookError::OracleUnavailable)
        } else if !self.orders[id as int].crosses(quote->Some_0) {
            Ok(TriggerOutcome::Untouched)
        } else if quote->Some_0.offer_amount == self.orders[id as int].remaining() {
            Ok(TriggerOutcome::Filled)
        } else {
            Ok(TriggerOutcome::PartiallyFilled)
        }
    }

    /// The book after a trigger of the order `id` with the pool's answer.
    pub open spec fn after_trigger(self, id: u128, quote: Option<PoolQuote>) -> BookView {
        if quote is Some && self.crossable(id as int, quote->Some_0) {
            self.fill(id as int, quote->Some_0)
        } else {
            self
        }
    }

    /// There is room for one more order, and for its owner if the book
    /// does not know the address yet.
    pub open spec fn has_room(self, address: Seq<char>) -> bool {
        self.orders.len() < usize::MAX && (self.knows(address) || self.users.len() < usize::MAX)
    }

    /// The book after one request. A request that is refused changes
    /// nothing.
    pub open spec fn step(self, call: Call) -> BookView {
        match call {
            Call::Create { address, is_bid, price, expected_amount, deposit_amount, timestamp } => {
                if self.has_room(address) && self.create_refusal(
                    address,
                    is_bid,
                    expected_amount,
                    deposit_amount,
                ) is None {
                    self.create(address, is_bid, price, expected_amount, deposit_amount, timestamp)
                } else {
                    self
                }
            },
            Call::Cancel { address } => {
                if self.has_active(address) {
                    self.cancel(address)
                } else {
                    self
                }
            },
            Call::Trigger { order_id, quote } => self.after_trigger(order_id, quote),
        }
    }

    /// The book after a sequence of requests.
    pub open spec fn run(self, calls: Seq<Call>) -> BookView
        decreases calls.len(),
    {
        if calls.len() == 0 {
            self
        } else {
            self.run(calls.drop_last()).step(calls.last())
        }
    }

    /// Order `a` comes before order `b` among the resting orders of one
    /// side: the better price first (the higher for bids, the lower for
    /// asks), then the earlier time, then the lower identifier.
    pub open spec fn precedes(self, is_bid: bool, a: int, b: int) -> bool {
        let x = self.orders[a];
        let y = self.orders[b];
        if x.price != y.price {
            if is_bid {
                x.price > y.price
            } else {
                x.price < y.price
            }
        } else if x.timestamp != y.timestamp {
            x.timestamp < y.timestamp
        } else {
            a < b
        }
    }

    /// Order `i` rests on the side `is_bid` and comes after `after`.
    pub open spec fn follows(self, is_bid: bool, after: Option<u128>, i: int) -> bool {
        &&& self.is_order(i)
        &&& self.orders[i].is_bid == is_bid
        &&& self.orders[i].status.is_open()
        &&& after matches Some(a) ==> self.is_order(a as int) && self.precedes(
            is_bid,
            a as int,
            i,
        )
    }

    /// `next` is the order that a pass over the side `is_bid` turns to after
    /// `after`: the first in priority of those that follow, or none when
    /// nothing follows.
    pub open spec fn is_next(self, is_bid: bool, after: Option<u128>, next: Option<u128>) -> bool {
        match next {
            Some(id) => {
                &&& self.follows(is_bid, after, id as int)
                &&& forall|j: int|
                    self.follows(is_bid, after, j) && j != id ==> self.precedes(
                        is_bid,
                        id as int,
                        j,
                    )
            },
            None => forall|j: int| !self.follows(is_bid, after, j),
        }
    }

    /// `ask` is what a pass asks the pool next: the order that `is_next`
    /// names, with what is left of its deposit.
    pub open spec fn is_next_question(
        self,
        is_bid: bool,
        after: Option<u128>,
        ask: Option<(u128, u128)>,
    ) -> bool {
        match ask {
            Some((id, offer)) => self.is_next(is_bid, after, Some(id)) && offer
                == self.orders[id as int].remaining(),
            None => self.is_next(is_bid, after, None),
        }
    }

    /// `quotes[i]`, where there is one, is the pool's answer for order `i`;
    /// some resting order is crossed by its quote.
    pub open spec fn any_crossable(self, quotes: Seq<Option<PoolQuote>>) -> bool {
        exists|i: int|
            0 <= i < quotes.len() && self.is_order(i) && (#[trigger] quotes[i]) is Some
                && self.orders[i].crosses(quotes[i]->Some_0)
    }
}

/// In a well-formed book the address names one user.
pub proof fn lemma_index_of(b: BookView, u: int, address: Seq<char>)
    requires
        b.wf(),
        b.is_user(u, address),
    ensures
        b.knows(address),
        b.index_of(address) == u,
{
    let w = b.index_of(address);
    assert(b.is_user(w, address));
    if w < u {
        assert(b.users[w].address != b.users[u].address);
    } else if u < w {
        assert(b.users[u].address != b.users[w].address);
    }
}

/// A user never has two resting orders: two orders of one owner that are
/// both `Active` or `PartiallyFilled` are the same order.
pub proof fn lemma_one_resting_order_per_user(b: BookView, i: int, j: int)
    requires
        b.wf(),
        b.is_order(i),
        b.is_order(j),
        b.orders[i].owner == b.orders[j].owner,
        b.orders[i].status.is_open(),
        b.orders[j].status.is_open(),
    ensures
        i == j,
{
    let u = b.orders[i].owner as int;
    assert(b.users[u].active == Some(i as u128));
    assert(b.users[u].active == Some(j as u128));
}

/// Creating an order keeps the book well formed and changes no older order.
pub proof fn lemma_create_keeps_wf(
    b: BookView,
    address: Seq<char>,
    is_bid: bool,
    price: u128,
    expected_amount: u128,
    deposit_amount: u128,
    timestamp: u64,
)
    requires
        b.wf(),
        b.orders.len() < usize::MAX,
        !b.knows(address) ==> b.users.len() < usize::MAX,
        b.create_refusal(address, is_bid, expected_amount, deposit_amount) is None,
    ensures
        b.create(address, is_bid, price, expected_amount, deposit_amount, timestamp).wf(),
        b.status_moves_on(
            b.create(address, is_bid, price, expected_amount, deposit_amount, timestamp),
        ),
{
    let n = b.create(address, is_bid, price, expected_amount, deposit_amount, timestamp);
    let id = b.orders.len() as int;
    let owner = n.orders[id].owner as int;
    if b.knows(address) {
        assert(b.is_user(b.index_of(address), address));
    }
    let order = n.orders[id];
    assert(order.wf()) by {
        assert(order.received * order.deposit_amount >= order.consumed * order.expected_amount)
            by (nonlinear_arith)
            requires
                order.received == 0,
                order.consumed == 0,
        ;
    }
    assert forall|i: int| n.is_order(i) implies (#[trigger] n.orders[i]).wf() && n.orders[i].owner
        < n.users.len() by {
        if i < id {
            assert(n.orders[i] == b.orders[i]);
        }
    }
    assert forall|i: int| n.is_order(i) implies ((#[trigger] n.orders[i]).status.is_open()
        <==> n.users[n.orders[i].owner as int].active == Some(i as u128)) by {
        if i < id {
            assert(n.orders[i] == b.orders[i]);
            let o = b.orders[i].owner as int;
            assert(b.users[o].active matches Some(a) ==> a < id);
        }
    }
    assert forall|u: int| 0 <= u < n.users.len() implies ((#[trigger] n.users[u]).active matches Some(
        a,
    ) ==> n.is_order(a as int) && n.orders[a as int].owner == u) by {
        if u != owner {
            assert(n.users[u] == b.users[u]);
        }
    }
    assert forall|u: int, k: int|
        0 <= u < n.users.len() && 0 <= k < n.users[u].history.len() implies n.archived(
        u,
        #[trigger] n.users[u].history[k] as int,
    ) by {
        assert(u < b.users.len());
        assert(n.users[u].history == b.users[u].history);
        assert(b.archived(u, b.users[u].history[k] as int));
    }
    assert forall|u: int, k: int, l: int|
        0 <= u < n.users.len() && 0 <= k < l < n.users[u].history.len()
            implies n.users[u].history[k] != n.users[u].history[l] by {
        assert(u < b.users.len());
        assert(n.users[u].history == b.users[u].history);
    }
    assert forall|u: int, v: int| 0 <= u < v < n.users.len() implies n.users[u].address
        != n.users[v].address by {
        if v < b.users.len() {
            assert(b.users[u].address != b.users[v].address);
        } else {
            assert(!b.is_user(u, address));
        }
    }
    assert forall|i: int| n.is_order(i) && !(#[trigger] n.orders[i]).status.is_open()
        implies n.users[n.orders[i].owner as int].history.contains(i as u128) by {
        assert(i < id);
        assert(n.orders[i] == b.orders[i]);
        let o = b.orders[i].owner as int;
        assert(n.users[o].history == b.users[o].history);
    }
}

/// Taking the resting order `id` of user `u` out of the active slot, with a
/// final status, keeps the book well formed.
pub proof fn lemma_archive_keeps_wf(b: BookView, id: int, after: OrderRecord)
    requires
        b.wf(),
        b.is_order(id),
        b.orders[id].status.is_open(),
        after.wf(),
        after.owner == b.orders[id].owner,
        !after.status.is_open(),
    ensures
        (BookView {
            orders: b.orders.update(id, after),
            users: b.archive(after.owner as int, id as u128),
            ..b
        }).wf(),
{
    let u = after.owner as int;
    let n = BookView { orders: b.orders.update(id, after), users: b.archive(u, id as u128), ..b };
    assert(b.users[u].active == Some(id as u128));
    assert forall|i: int| n.is_order(i) implies ((#[trigger] n.orders[i]).status.is_open()
        <==> n.users[n.orders[i].owner as int].active == Some(i as u128)) by {
        if i != id {
            assert(n.orders[i] == b.orders[i]);
            let o = b.orders[i].owner as int;
            if o == u {
                assert(!b.orders[i].status.is_open());
            }
        }
    }
    assert forall|v: int| 0 <= v < n.users.len() implies ((#[trigger] n.users[v]).active matches Some(
        a,
    ) ==> n.is_order(a as int) && n.orders[a as int].owner == v) by {
        if v != u {
            assert(n.users[v] == b.users[v]);
            assert(b.users[v].active matches Some(a) ==> a != id);
        }
    }
    assert forall|v: int, k: int|
        0 <= v < n.users.len() && 0 <= k < n.users[v].history.len() implies n.archived(
        v,
        #[trigger] n.users[v].history[k] as int,
    ) by {
        if v == u && k == b.users[u].history.len() {
        } else {
            assert(n.users[v].history[k] == b.users[v].history[k]);
            assert(b.archived(v, b.users[v].history[k] as int));
        }
    }
    assert forall|v: int, k: int, l: int|
        0 <= v < n.users.len() && 0 <= k < l < n.users[v].history.len()
            implies n.users[v].history[k] != n.users[v].history[l] by {
        assert(n.users[v].history[k] == b.users[v].history[k]);
        assert(b.archived(v, b.users[v].history[k] as int));
        if v == u && l == b.users[u].history.len() {
        } else {
            assert(n.users[v].history[l] == b.users[v].history[l]);
        }
    }
    assert forall|i: int| n.is_order(i) && !(#[trigger] n.orders[i]).status.is_open()
        implies n.users[n.orders[i].owner as int].history.contains(i as u128) by {
        let o = n.orders[i].owner as int;
        if i == id {
            assert(n.users[u].history[b.users[u].history.len() as int] == id as u128);
        } else {
            assert(n.orders[i] == b.orders[i]);
            let h = b.users[o].history;
            assert(h.contains(i as u128));
            let k = choose|k: int| 0 <= k < h.len() && h[k] == i as u128;
            assert(n.users[o].history[k] == i as u128);
        }
    }
}

/// Replacing a resting order by an allowed record keeps the book well
/// formed and moves no status back.
pub proof fn lemma_update_keeps_wf(b: BookView, id: int, next: OrderRecord)
    requires
        b.wf(),
        b.is_order(id),
        b.update_allowed(id, next),
    ensures
        b.update(id, next).wf(),
        b.status_moves_on(b.update(id, next)),
{
    let n = b.update(id, next);
    if !next.status.is_open() {
        lemma_archive_keeps_wf(b, id, next);
    } else {
        assert forall|i: int| n.is_order(i) implies (#[trigger] n.orders[i]).wf()
            && n.orders[i].owner < n.users.len() by {
            if i != id {
                assert(n.orders[i] == b.orders[i]);
            }
        }
        assert forall|i: int| n.is_order(i) implies ((#[trigger] n.orders[i]).status.is_open()
            <==> n.users[n.orders[i].owner as int].active == Some(i as u128)) by {
            if i != id {
                assert(n.orders[i] == b.orders[i]);
            }
        }
        assert forall|v: int, k: int|
            0 <= v < n.users.len() && 0 <= k < n.users[v].history.len() implies n.archived(
            v,
            #[trigger] n.users[v].history[k] as int,
        ) by {
            assert(b.archived(v, b.users[v].history[k] as int));
        }
        assert forall|i: int| n.is_order(i) && !(#[trigger] n.orders[i]).status.is_open()
            implies n.users[n.orders[i].owner as int].history.contains(i as u128) by {
            assert(i != id);
            assert(n.orders[i] == b.orders[i]);
        }
    }
    assert forall|i: int| b.is_order(i) implies (#[trigger] b.orders[i]).status.may_become(
        n.orders[i].status,
    ) by {}
}

/// Canceling keeps the book well formed, and only the canceled order
/// changes its status, from a resting one to `Canceled`.
pub proof fn lemma_cancel_keeps_wf(b: BookView, address: Seq<char>)
    requires
        b.wf(),
        b.has_active(address),
    ensures
        b.cancel(address).wf(),
        b.status_moves_on(b.cancel(address)),
{
    let u = b.index_of(address);
    assert(b.is_user(u, address));
    let id = b.users[u].active->Some_0 as int;
    assert(b.users[u].active is Some);
    assert(b.is_order(id) && b.orders[id].owner == u);
    assert(b.orders[id].status.is_open());
    let after = b.orders[id].after_cancel();
    assert(after.wf());
    lemma_archive_keeps_wf(b, id, after);
    let n = b.cancel(address);
    assert forall|i: int| b.is_order(i) implies (#[trigger] b.orders[i]).status.may_become(
        n.orders[i].status,
    ) by {}
}

/// A fill keeps the book well formed, and only the filled order changes
/// its status, to `PartiallyFilled` or `Filled`.
pub proof fn lemma_fill_keeps_wf(b: BookView, id: int, quote: PoolQuote)
    requires
        b.wf(),
        b.crossable(id, quote),
    ensures
        b.fill(id, quote).wf(),
        b.status_moves_on(b.fill(id, quote)),
        b.fill(id, quote) == b.update(id, b.orders[id].after_fill(quote)),
{
    crate::order::lemma_fill_keeps_wf(b.orders[id], quote);
    lemma_update_keeps_wf(b, id, b.orders[id].after_fill(quote));
}

/// An order that is `Filled` or `Canceled` stands in its owner's history,
/// at one place, and in no other user's.
pub proof fn lemma_final_order_archived_once(b: BookView, i: int, u: int, k: int, l: int)
    requires
        b.wf(),
        b.is_order(i),
        !b.orders[i].status.is_open(),
        0 <= u < b.users.len(),
        0 <= k < b.users[u].history.len(),
        0 <= l < b.users[u].history.len(),
        b.users[u].history[k] == i as u128,
    ensures
        b.users[b.orders[i].owner as int].history.contains(i as u128),
        u == b.orders[i].owner,
        b.users[u].history[l] == i as u128 ==> l == k,
{
    assert(b.archived(u, b.users[u].history[k] as int));
    if b.users[u].history[l] == i as u128 && l != k {
        if l < k {
            assert(b.users[u].history[l] != b.users[u].history[k]);
        } else {
            assert(b.users[u].history[k] != b.users[u].history[l]);
        }
    }
}

/// The order that a pass turns to next is determined: two orders that
/// both come first among those that follow are the same.
pub proof fn lemma_next_is_unique(
    b: BookView,
    is_bid: bool,
    after: Option<u128>,
    x: Option<u128>,
    y: Option<u128>,
)
    requires
        b.is_next(is_bid, after, x),
        b.is_next(is_bid, after, y),
    ensures
        x == y,
{
    match (x, y) {
        (Some(i), Some(j)) => {
            if i != j {
                assert(b.precedes(is_bid, i as int, j as int));
                assert(b.precedes(is_bid, j as int, i as int));
            }
        },
        (Some(i), None) => {
            assert(b.follows(is_bid, after, i as int));
        },
        (None, Some(j)) => {
            assert(b.follows(is_bid, after, j as int));
        },
        (None, None) => {},
    }
}

/// A trigger whose quote crosses nothing changes nothing, so a second one
/// with the same answer finds the same book and leaves it alone too.
pub proof fn lemma_idle_trigger_repeats(b: BookView, id: u128, quote: Option<PoolQuote>)
    requires
        b.wf(),
        quote matches Some(q) ==> !b.crossable(id as int, q),
    ensures
        b.after_trigger(id, quote) == b,
        b.after_trigger(id, quote).after_trigger(id, quote) == b,
        b.trigger_result(id, quote) is Err || b.trigger_result(id, quote) == Ok::<
            TriggerOutcome,
            OrderBookError,
        >(TriggerOutcome::Untouched),
{
}

/// One request keeps the book well formed and moves no status back.
pub proof fn lemma_step_keeps_laws(b: BookView, call: Call)
    requires
        b.wf(),
    ensures
        b.step(call).wf(),
        b.status_moves_on(b.step(call)),
{
    match call {
        Call::Create { address, is_bid, price, expected_amount, deposit_amount, timestamp } => {
            if b.has_room(address) && b.create_refusal(address, is_bid, expected_amount, deposit_amount)
                is None {
                lemma_create_keeps_wf(
                    b,
                    address,
                    is_bid,
                    price,
                    expected_amount,
                    deposit_amount,
                    timestamp,
                );
            }
        },
        Call::Cancel { address } => {
            if b.has_active(address) {
                lemma_cancel_keeps_wf(b, address);
            }
        },
        Call::Trigger { order_id, quote } => {
            if quote is Some && b.crossable(order_id as int, quote->Some_0) {
                lemma_fill_keeps_wf(b, order_id as int, quote->Some_0);
            }
        },
    }
}

/// Whatever sequence of create, cancel and trigger requests a well-formed
/// book goes through: it stays well formed, no user ever has two resting
/// orders, and an order that was `Filled` or `Canceled` keeps that status.
pub proof fn lemma_run_keeps_laws(b: BookView, calls: Seq<Call>)
    requires
        b.wf(),
    ensures
        b.run(calls).wf(),
        b.status_moves_on(b.run(calls)),
        forall|i: int, j: int|
            #![trigger b.run(calls).orders[i], b.run(calls).orders[j]]
            b.run(calls).is_order(i) && b.run(calls).is_order(j) && b.run(calls).orders[i].owner
                == b.run(calls).orders[j].owner && b.run(calls).orders[i].status.is_open()
                && b.run(calls).orders[j].status.is_open() ==> i == j,
        forall|i: int|
            b.is_order(i) && !(#[trigger] b.orders[i]).status.is_open() ==> b.run(
                calls,
            ).orders[i].status == b.orders[i].status,
    decreases calls.len(),
{
    let end = b.run(calls);
    if calls.len() > 0 {
        let mid = b.run(calls.drop_last());
        lemma_run_keeps_laws(b, calls.drop_last());
        lemma_step_keeps_laws(mid, calls.last());
        assert forall|i: int| b.is_order(i) implies (#[trigger] b.orders[i]).status.may_become(
            end.orders[i].status,
        ) by {
            lemma_final_status_stays(b, mid, end, i);
        }
    }
    assert forall|i: int, j: int|
        end.is_order(i) && end.is_order(j) && end.orders[i].owner == end.orders[j].owner
            && end.orders[i].status.is_open() && end.orders[j].status.is_open() implies i
        == j by {
        lemma_one_resting_order_per_user(end, i, j);
    }
}

/// A trigger call whose answer crosses nothing in the book `b`.
pub open spec fn is_idle_trigger(b: BookView, call: Call) -> bool {
    call matches Call::Trigger { order_id, quote } && (quote matches Some(q) ==> !b.crossable(
        order_id as int,
        q,
    ))
}

/// A trigger pass in which no answer crosses its order leaves the book as
/// it was, so a second pass with the same answers does so again.
pub proof fn lemma_idle_pass_changes_nothing(b: BookView, calls: Seq<Call>)
    requires
        forall|k: int| 0 <= k < calls.len() ==> is_idle_trigger(b, #[trigger] calls[k]),
    ensures
        b.run(calls) == b,
        b.run(calls).run(calls) == b,
    decreases calls.len(),
{
    if calls.len() > 0 {
        lemma_idle_pass_changes_nothing(b, calls.drop_last());
        assert(is_idle_trigger(b, calls[calls.len() - 1]));
    }
}

/// Whatever has happened between two books, if every step moved statuses
/// on, then so did the whole: an order that was `Filled` or `Canceled` in
/// the first book has that same status in the last.
pub proof fn lemma_final_status_stays(a: BookView, b: BookView, c: BookView, i: int)
    requires
        a.status_moves_on(b),
        b.status_moves_on(c),
        a.is_order(i),
    ensures
        a.status_moves_on(c),
        !a.orders[i].status.is_open() ==> c.orders[i].status == a.orders[i].status,
{
    assert forall|j: int| a.is_order(j) implies (#[trigger] a.orders[j]).status.may_become(
        c.orders[j].status,
    ) by {
        assert(b.is_order(j));
        assert(a.orders[j].status.may_become(b.orders[j].status));
        assert(b.orders[j].status.may_become(c.orders[j].status));
    }
    assert(a.orders[i].status.may_become(c.orders[i].status));
}

} // verus!
