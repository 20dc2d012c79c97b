//! Queries. A user's orders are shown only to who holds the user's viewing
//! key; the factory says whether a key is valid, and its answer is handed in.
//! A history is read in pages, newest order first.

use crate::book::{OrderBook, OrderBookError};
use crate::model::{lemma_index_of, BookView};
use crate::msg::{IsKeyValidResponse, LimitOrderState, QueryAnswer};
use vstd::prelude::*;

verus! {

/// The page size where a query names none.
pub const DEFAULT_PAGE_SIZE: u32 = 10;

/// Position in the history, counted from the newest, at which a page starts.
pub open spec fn page_start(len: int, page: int, page_size: int) -> int {
    if page * page_size < len {
        page * page_size
    } else {
        len
    }
}

/// Position, counted from the newest, before which a page ends.
pub open spec fn page_end(len: int, page: int, page_size: int) -> int {
    if page_start(len, page, page_size) + page_size < len {
        page_start(len, page, page_size) + page_size
    } else {
        len
    }
}

/// The history of the user with `address`, oldest first; empty for a
/// stranger.
pub open spec fn history(b: BookView, address: Seq<char>) -> Seq<u128> {
    if b.knows(address) {
        b.users[b.index_of(address)].history
    } else {
        Seq::empty()
    }
}

/// `out` is the page `page` of the history of `address`, newest first.
pub open spec fn is_history_page(
    b: BookView,
    address: Seq<char>,
    page: int,
    page_size: int,
    out: Seq<LimitOrderState>,
) -> bool {
    let h = history(b, address);
    let start = page_start(h.len() as int, page, page_size);
    let end = page_end(h.len() as int, page, page_size);
    &&& out.len() == end - start
    &&& forall|k: int|
        0 <= k < out.len() ==> b.orders[h[h.len() - 1 - (start + k)] as int].shown_as(
            #[trigger] out[k],
        )
}

/// The bounds of page `page` in a history of `len` entries. A page past the
/// end is empty.
pub fn page_bounds(len: usize, page: u32, page_size: u32) -> (r: (usize, usize))
    ensures
        r.0 == page_start(len as int, page as int, page_size as int),
        r.1 == page_end(len as int, page as int, page_size as int),
        r.0 <= r.1 <= len,
{
    assert(page * page_size <= 0xffff_ffff * 0xffff_ffff) by (nonlinear_arith)
        requires
            0 <= page <= 0xffff_ffff,
            0 <= page_size <= 0xffff_ffff,
    ;
    let first: u128 = (page as u128) * (page_size as u128);
    let start: usize = if first < len as u128 {
        first as usize
    } else {
        len
    };
    let end: usize = if (page_size as u128) < (len - start) as u128 {
        start + page_size as usize
    } else {
        len
    };
    (start, end)
}

/// The resting order of the user with `user_address`, for the holder of a
/// valid key. Without one the answer is `Unauthorized`, whatever the book
/// holds.
pub fn get_active_limit_order(
    book: &OrderBook,
    user_address: &String,
    key: &IsKeyValidResponse,
) -> (r: Result<Option<LimitOrderState>, OrderBookError>)
    requires
        book.wf(),
    ensures
        !key.is_key_valid.is_valid ==> r is Err && r->Err_0 == OrderBookError::Unauthorized,
        key.is_key_valid.is_valid ==> r is Ok && match r->Ok_0 {
            Some(s) => book@.has_active(user_address@) && book@.orders[book@.users[book@.index_of(
                user_address@,
            )].active->Some_0 as int].shown_as(s),
            None => !book@.has_active(user_address@),
        },
{
    if !key.is_key_valid.is_valid {
        return Err(OrderBookError::Unauthorized);
    }
    let u = match book.find_user(user_address) {
        Some(u) => u,
        None => {
            return Ok(None);
        },
    };
    proof {
        lemma_index_of(book@, u as int, user_address@);
    }
    match book.users[u].orders.active_order {
        Some(id) => {
            assert(book@.users[u as int].active == Some(id));
            assert(book@.orders[id as int].wf());
            Ok(Some(book.orders[id as usize].to_state()))
        },
        None => Ok(None),
    }
}

/// One page of the history of the user with `user_address`, newest order
/// first, for the holder of a valid key. Without one the answer is
/// `Unauthorized`, whatever the book holds. Page 0 and `DEFAULT_PAGE_SIZE`
/// stand in where the query names none.
pub fn get_history_limit_orders(
    book: &OrderBook,
    user_address: &String,
    key: &IsKeyValidResponse,
    page_size: Option<u32>,
    page: Option<u32>,
) -> (r: Result<Vec<LimitOrderState>, OrderBookError>)
    requires
        book.wf(),
    ensures
        !key.is_key_valid.is_valid ==> r is Err && r->Err_0 == OrderBookError::Unauthorized,
        key.is_key_valid.is_valid ==> r is Ok && is_history_page(
            book@,
            user_address@,
            page.unwrap_or(0) as int,
            page_size.unwrap_or(DEFAULT_PAGE_SIZE) as int,
            r->Ok_0@,
        ),
{
    if !key.is_key_valid.is_valid {
        return Err(OrderBookError::Unauthorized);
    }
    let size: u32 = match page_size {
        Some(s) => s,
        None => DEFAULT_PAGE_SIZE,
    };
    let number: u32 = match page {
        Some(p) => p,
        None => 0,
    };
    let mut out: Vec<LimitOrderState> = Vec::new();
    let u = match book.find_user(user_address) {
        Some(u) => u,
        None => {
            return Ok(out);
        },
    };
    proof {
        lemma_index_of(book@, u as int, user_address@);
    }
    let len = book.users[u].orders.history_orders.len();
    let (start, end) = page_bounds(len, number, size);
    let ghost h = history(book@, user_address@);
    assert(h == book@.users[u as int].history);
    let mut pos: usize = start;
    while pos < end
        invariant
            book.wf(),
            start <= pos <= end <= len,
            u < book.users.len(),
            len == h.len(),
            h == book@.users[u as int].history,
            h == book.users[u as int].orders.history_orders@,
            out@.len() == pos - start,
            forall|k: int|
                0 <= k < out@.len() ==> book@.orders[h[len - 1 - (start + k)] as int].shown_as(
                    #[trigger] out@[k],
                ),
        decreases end - pos,
    {
        let id = book.users[u].orders.history_orders[len - 1 - pos];
        assert(book@.archived(u as int, book@.users[u as int].history[len - 1 - pos] as int));
        assert(book@.orders[id as int].wf());
        let s = book.orders[id as usize].to_state();
        out.push(s);
        pos += 1;
    }
    Ok(out)
}

/// The pool that the book rests on, and its two assets.
pub fn order_book_pair_info(book: &OrderBook) -> (r: QueryAnswer)
    ensures
        r matches QueryAnswer::OrderBookPair { amm_pair_address, assets_info }
            && amm_pair_address == book.amm_pair_address && assets_info@ == seq![
            book.asset1,
            book.asset2,
        ],
{
    let assets_info = [book.asset1.duplicate(), book.asset2.duplicate()];
    assert(assets_info@ =~= seq![book.asset1, book.asset2]);
    QueryAnswer::OrderBookPair { amm_pair_address: book.amm_pair_address.clone(), assets_info }
}

} // verus!
